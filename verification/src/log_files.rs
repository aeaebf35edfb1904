//! Which file the structured log is written to: one file a day, named by
//! the UTC date, with a numbered follow-up file each time one reaches
//! `MAX_FILE_SIZE` bytes.
//!
//! The caller opens, measures and writes the files; a [`LogRotation`] says
//! which file each write goes to.
use vstd::prelude::*;
use crate::text::{chars_eq, chars_of, decimal, push_decimal, push_str, string_of};

verus! {

/// Size at which a log file is closed for a follow-up, in bytes.
pub const MAX_FILE_SIZE: u64 = 1_000_000_000;

/// `s` padded with leading zeros to at least three characters.
pub open spec fn pad3(s: Seq<char>) -> Seq<char> {
    if s.len() >= 3 {
        s
    } else if s.len() == 2 {
        seq!['0'] + s
    } else if s.len() == 1 {
        seq!['0', '0'] + s
    } else {
        seq!['0', '0', '0']
    }
}

/// The file name for `date` and follow-up number `suffix`:
/// `{date}.jsonl`, then `{date}-001.jsonl`, `{date}-002.jsonl`, ...
pub open spec fn log_file_name(date: Seq<char>, suffix: nat) -> Seq<char> {
    if suffix == 0 {
        date + ".jsonl"@
    } else {
        date + "-"@ + pad3(decimal(suffix)) + ".jsonl"@
    }
}

proof fn lemma_decimal_nonempty(n: nat)
    ensures
        decimal(n).len() >= 1,
    decreases n,
{
    if n >= 10 {
        lemma_decimal_nonempty(n / 10);
    }
}

/// What a write needs first.
pub enum RotationStep {
    /// The date changed or no file is open: measure this file if it exists,
    /// then pass its size to [`LogRotation::resume`].
    NewDay(String),
    /// The current file is full: open this follow-up file.
    Rotate(String),
    /// Write to the open file.
    Ready,
}

/// The state of the log files: the date and follow-up number of the current
/// file, the bytes written to it, and whether it is open.
pub struct LogRotation {
    date: String,
    suffix: u32,
    size: u64,
    open: bool,
}

impl LogRotation {
    pub closed spec fn date(&self) -> Seq<char> {
        self.date@
    }

    pub closed spec fn suffix(&self) -> nat {
        self.suffix as nat
    }

    pub closed spec fn size(&self) -> nat {
        self.size as nat
    }

    pub closed spec fn is_open(&self) -> bool {
        self.open
    }

    /// The follow-up number of the current file.
    pub fn current_suffix(&self) -> (r: u32)
        ensures
            r == self.suffix(),
    {
        self.suffix
    }

    /// The bytes written to the current file.
    pub fn current_size(&self) -> (r: u64)
        ensures
            r == self.size(),
    {
        self.size
    }

    /// No file yet.
    pub fn new() -> (r: Self)
        ensures
            r.date().len() == 0,
            r.suffix() == 0,
            r.size() == 0,
            !r.is_open(),
    {
        LogRotation { date: String::new(), suffix: 0, size: 0, open: false }
    }

    /// The current file's name.
    pub fn file_name(&self) -> (r: String)
        ensures
            r@ == log_file_name(self.date(), self.suffix()),
    {
        let mut out = chars_of(self.date.as_str());
        if self.suffix == 0 {
            push_str(&mut out, ".jsonl");
            return string_of(&out);
        }
        push_str(&mut out, "-");
        let ghost d = decimal(self.suffix as nat);
        proof {
            lemma_decimal_nonempty(self.suffix as nat);
        }
        let digits = crate::text::decimal_chars(self.suffix as u64);
        let ghost head = out@;
        proof {
            reveal_strlit("00");
            reveal_strlit("0");
        }
        if digits.len() == 1 {
            push_str(&mut out, "00");
            assert(out@ =~= head + seq!['0', '0']);
        } else if digits.len() == 2 {
            push_str(&mut out, "0");
            assert(out@ =~= head + seq!['0']);
        }
        crate::text::push_chars(&mut out, &digits);
        push_str(&mut out, ".jsonl");
        assert(out@ =~= head + pad3(d) + ".jsonl"@);
        string_of(&out)
    }

    /// Starts a write on the UTC date `today`.
    pub fn start(&mut self, today: &str) -> (r: RotationStep)
        requires
            old(self).suffix() < u32::MAX,
        ensures
            (today@ != old(self).date() || !old(self).is_open()) ==> {
                &&& r matches RotationStep::NewDay(name) && name@ == log_file_name(today@, 0)
                &&& final(self).date() == today@ && final(self).suffix() == 0 && final(self).size() == 0
                &&& !final(self).is_open()
            },
            (today@ == old(self).date() && old(self).is_open() && old(self).size() >= MAX_FILE_SIZE) ==> {
                &&& r matches RotationStep::Rotate(name) && name@ == log_file_name(today@, old(self).suffix() + 1)
                &&& final(self).date() == old(self).date() && final(self).suffix() == old(self).suffix() + 1
                &&& final(self).size() == 0 && final(self).is_open()
            },
            (today@ == old(self).date() && old(self).is_open() && old(self).size() < MAX_FILE_SIZE) ==> {
                &&& r is Ready
                &&& final(self).date() == old(self).date() && final(self).suffix() == old(self).suffix()
                &&& final(self).size() == old(self).size() && final(self).is_open()
            },
    {
        let same = chars_eq(&chars_of(today), &chars_of(self.date.as_str()));
        if !same || !self.open {
            self.date = string_of(&chars_of(today));
            self.suffix = 0;
            self.size = 0;
            self.open = false;
            return RotationStep::NewDay(self.file_name());
        }
        if self.size >= MAX_FILE_SIZE {
            self.suffix = self.suffix + 1;
            self.size = 0;
            return RotationStep::Rotate(self.file_name());
        }
        RotationStep::Ready
    }

    /// Resumes the day's first file, given its size if it exists: a full one
    /// is left for the first follow-up. Returns the file to open.
    pub fn resume(&mut self, existing_size: Option<u64>) -> (r: String)
        requires
            old(self).suffix() == 0,
        ensures
            final(self).date() == old(self).date(),
            final(self).is_open() == old(self).is_open(),
            match existing_size {
                Some(n) => if n >= MAX_FILE_SIZE {
                    final(self).suffix() == 1 && final(self).size() == 0
                } else {
                    final(self).suffix() == 0 && final(self).size() == n
                },
                None => final(self).suffix() == 0 && final(self).size() == old(self).size(),
            },
            r@ == log_file_name(final(self).date(), final(self).suffix()),
    {
        match existing_size {
            Some(n) => {
                self.size = n;
                if n >= MAX_FILE_SIZE {
                    self.suffix = 1;
                    self.size = 0;
                }
            },
            None => {},
        }
        self.file_name()
    }

    /// The file named by the last step was opened.
    pub fn opened(&mut self)
        ensures
            final(self).is_open(),
            final(self).date() == old(self).date(),
            final(self).suffix() == old(self).suffix(),
            final(self).size() == old(self).size(),
    {
        self.open = true;
    }

    /// `n` bytes were written to the current file.
    pub fn written(&mut self, n: u64)
        requires
            old(self).size() + n <= u64::MAX,
        ensures
            final(self).size() == old(self).size() + n,
            final(self).date() == old(self).date(),
            final(self).suffix() == old(self).suffix(),
            final(self).is_open() == old(self).is_open(),
    {
        self.size = self.size + n;
    }
}

} // verus!
