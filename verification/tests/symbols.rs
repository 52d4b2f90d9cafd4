use market_ingest::symbols::{contains_symbol, highly_traded_symbols, is_highly_traded};
use market_ingest::symbols::{list_tickers_day, normalize_symbol, prioritize};
use market_ingest::symbols::{symbols_with_volume, without_denied, Ticker, VolumeRow};

fn strings(names: &[&str]) -> Vec<String> {
    names.iter().map(|s| s.to_string()).collect()
}

fn row(symbol: &str, volume: u64) -> VolumeRow {
    VolumeRow { symbol: symbol.to_string(), volume }
}

#[test]
fn slash_is_written_as_dot() {
    assert_eq!(normalize_symbol("BRK/A"), "BRK.A");
    assert_eq!(normalize_symbol("A/B/C"), "A.B.C");
    assert_eq!(normalize_symbol("/"), ".");
    assert_eq!(normalize_symbol("//"), "..");
}

#[test]
fn symbol_without_slash_is_unchanged() {
    assert_eq!(normalize_symbol("AAPL"), "AAPL");
    assert_eq!(normalize_symbol("BRK.A"), "BRK.A");
    assert_eq!(normalize_symbol(""), "");
    assert_eq!(normalize_symbol("aapl"), "aapl");
    assert_eq!(normalize_symbol("A\\B"), "A\\B");
}

#[test]
fn symbol_is_found_in_a_list() {
    let list = strings(&["AAPL", "MSFT", "BRK.A"]);
    assert!(contains_symbol(&list, &"MSFT".to_string()));
    assert!(contains_symbol(&list, &"BRK.A".to_string()));
    assert!(!contains_symbol(&list, &"msft".to_string()));
    assert!(!contains_symbol(&list, &"BRK".to_string()));
    assert!(!contains_symbol(&vec![], &"AAPL".to_string()));
}

#[test]
fn snapshot_symbols_are_normalized_and_kept_once() {
    let snapshot = strings(&["AAPL", "BRK/A", "MSFT", "AAPL", "BRK.A", "BRK/B", "MSFT"]);
    let tickers = list_tickers_day(&snapshot);
    assert_eq!(tickers, strings(&["AAPL", "BRK.A", "MSFT", "BRK.B"]));
}

#[test]
fn snapshot_symbols_are_case_sensitive() {
    let tickers = list_tickers_day(&strings(&["abc", "ABC", "Abc", "abc"]));
    assert_eq!(tickers, strings(&["abc", "ABC", "Abc"]));
}

#[test]
fn empty_snapshot_has_no_symbols() {
    assert_eq!(list_tickers_day(&vec![]), Vec::<String>::new());
}

#[test]
fn symbols_with_volume_from_committed_bars() {
    let rows = vec![
        row("AAPL", 100),
        row("DEAD", 0),
        row("MSFT", 5),
        row("AAPL", 7),
        row("LATE", 0),
        row("LATE", 1),
        row("MSFT", 0),
    ];
    assert_eq!(symbols_with_volume(&rows), strings(&["AAPL", "MSFT", "LATE"]));
}

#[test]
fn bars_without_volume_give_no_symbols() {
    assert_eq!(symbols_with_volume(&vec![]), Vec::<String>::new());
    assert_eq!(symbols_with_volume(&vec![row("A", 0), row("B", 0)]), Vec::<String>::new());
    assert_eq!(symbols_with_volume(&vec![row("A", u64::MAX)]), strings(&["A"]));
}

#[test]
fn denied_symbols_are_left_out() {
    let symbols = strings(&["AAPL", "ZTEST", "MSFT", "ZVZZT"]);
    let denied = strings(&["ZVZZT", "ZTEST", "NONE"]);
    assert_eq!(without_denied(&symbols, &denied), strings(&["AAPL", "MSFT"]));
    assert_eq!(without_denied(&symbols, &vec![]), symbols);
    assert_eq!(without_denied(&vec![], &denied), Vec::<String>::new());
    assert_eq!(without_denied(&denied, &denied), Vec::<String>::new());
}

#[test]
fn highly_traded_symbols_are_known() {
    let list = highly_traded_symbols();
    assert_eq!(list.len(), 18);
    assert_eq!(list[0], "AAPL");
    assert_eq!(list[17], "VOO");
    for s in list.iter() {
        assert!(is_highly_traded(s));
    }
    assert!(is_highly_traded(&"SPY".to_string()));
    assert!(!is_highly_traded(&"spy".to_string()));
    assert!(!is_highly_traded(&"IBM".to_string()));
    assert!(!is_highly_traded(&"".to_string()));
    assert!(!is_highly_traded(&"AAPLX".to_string()));
}

#[test]
fn highly_traded_symbols_are_fetched_first() {
    let tickers = strings(&["ZION", "IBM", "TSLA", "A", "AAPL", "MSFT", "B"]);
    let order = prioritize(&tickers);
    assert_eq!(order.len(), 7);
    let first: Vec<&str> = order[..3].iter().map(|&i| tickers[i].as_str()).collect();
    let mut first_sorted = first.clone();
    first_sorted.sort();
    assert_eq!(first_sorted, vec!["AAPL", "MSFT", "TSLA"]);
    let rest: Vec<&str> = order[3..].iter().map(|&i| tickers[i].as_str()).collect();
    assert_eq!(rest, vec!["A", "B", "IBM", "ZION"]);
}

#[test]
fn other_symbols_are_fetched_by_name() {
    let tickers = strings(&["C", "A", "B"]);
    assert_eq!(prioritize(&tickers), vec![1, 2, 0]);
    assert_eq!(prioritize(&vec![]), Vec::<usize>::new());
}

#[test]
fn ticker_holds_symbol_and_day() {
    let t = Ticker { symbol: "AAPL".to_string(), day: "2020-03-02".to_string() };
    assert_eq!(t.symbol, "AAPL");
    assert_eq!(t.day, "2020-03-02");
}
