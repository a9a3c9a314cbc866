use homeboy::bulk::{execute_bulk, JsonInput};
use homeboy::error::Error;

#[derive(Debug, Clone)]
struct TestItem {
    id: String,
    value: i32,
}

#[derive(Debug, Clone)]
struct TestResult {
    id: String,
    doubled: i32,
    success: bool,
}

struct TestProcessor;

impl JsonInput for TestProcessor {
    type Item = TestItem;
    type ItemResult = TestResult;

    fn process_item(item: Self::Item) -> Result<Self::ItemResult, Error> {
        if item.value < 0 {
            return Err(Error::other("Negative values not allowed".to_string()));
        }
        Ok(TestResult {
            id: item.id,
            doubled: item.value * 2,
            success: true,
        })
    }

    fn is_success(result: &Self::ItemResult) -> bool {
        result.success
    }
}

#[test]
fn test_execute_bulk_all_success() {
    let items = vec![
        TestItem { id: "a".to_string(), value: 1 },
        TestItem { id: "b".to_string(), value: 2 },
        TestItem { id: "c".to_string(), value: 3 },
    ];

    let (result, exit_code) = execute_bulk::<TestProcessor, _>(
        "test",
        items,
        |item| item.id.clone(),
    );

    assert_eq!(exit_code, 0);
    assert_eq!(result.summary.total, 3);
    assert_eq!(result.summary.succeeded, 3);
    assert_eq!(result.summary.failed, 0);
}

#[test]
fn test_execute_bulk_partial_failure() {
    let items = vec![
        TestItem { id: "a".to_string(), value: 1 },
        TestItem { id: "b".to_string(), value: -1 },
        TestItem { id: "c".to_string(), value: 3 },
    ];

    let (result, exit_code) = execute_bulk::<TestProcessor, _>(
        "test",
        items,
        |item| item.id.clone(),
    );

    assert_eq!(exit_code, 1);
    assert_eq!(result.summary.total, 3);
    assert_eq!(result.summary.succeeded, 2);
    assert_eq!(result.summary.failed, 1);
    assert!(result.results[1].error.is_some());
}

#[test]
fn test_execute_bulk_empty() {
    let items: Vec<TestItem> = vec![];

    let (result, exit_code) = execute_bulk::<TestProcessor, _>(
        "test",
        items,
        |item| item.id.clone(),
    );

    assert_eq!(exit_code, 0);
    assert_eq!(result.summary.total, 0);
    assert_eq!(result.summary.succeeded, 0);
    assert_eq!(result.summary.failed, 0);
}

#[test]
fn bulk_results_keep_item_order_and_doubling() {
    let items = vec![
        TestItem { id: "x".to_string(), value: 4 },
        TestItem { id: "y".to_string(), value: 5 },
    ];
    let (result, _) = execute_bulk::<TestProcessor, _>("double", items, |i| i.id.clone());
    assert_eq!(result.action, "double");
    assert_eq!(result.results[0].id, "x");
    assert_eq!(result.results[0].result.as_ref().unwrap().doubled, 8);
    assert_eq!(result.results[1].id, "y");
    assert_eq!(result.results[1].result.as_ref().unwrap().doubled, 10);
}
