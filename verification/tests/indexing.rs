use jcowork::indexing::{plan_index, IndexPlan};

#[test]
fn scanned_document_is_skipped() {
    match plan_index("/data/reports/acme/2023年度报告.pdf", "  \n ") {
        IndexPlan::Skip { filename, year } => {
            assert_eq!(filename, "2023年度报告.pdf");
            assert_eq!(year, Some(2023));
        },
        _ => panic!("expected a skip record"),
    }
}

#[test]
fn document_with_text_is_indexed() {
    match plan_index("/data/reports/acme/acme_annual_2022.pdf", "Revenue grew.\nProfit fell.") {
        IndexPlan::Index { filename, doc_type, year, chunks } => {
            assert_eq!(filename, "acme_annual_2022.pdf");
            assert_eq!(doc_type, "年报");
            assert_eq!(year, Some(2022));
            assert_eq!(chunks, vec!["Revenue grew.\nProfit fell.".to_string()]);
        },
        _ => panic!("expected an index record"),
    }
    match plan_index("notes.pdf", "x") {
        IndexPlan::Index { filename, doc_type, year, .. } => {
            assert_eq!(filename, "notes.pdf");
            assert_eq!(doc_type, "other");
            assert_eq!(year, None);
        },
        _ => panic!("expected an index record"),
    }
}
