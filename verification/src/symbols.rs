//! Which symbols a period is fetched for.
//!
//! The symbols of a period come either from the provider's snapshot of that
//! period or from bars that are already committed. Either way the result is
//! a list in which no symbol occurs twice. Symbols are case-sensitive, and
//! a `/` in a symbol of the provider is written as `.`.

use crate::order::{bytes_le, is_arrangement, key_le, sort_order, symbol_bytes};
use crate::order::{OrderBy, RecordKey};
use vstd::prelude::*;
use vstd::string::StringExecFns;

verus! {

/// One row of committed daily bars, as far as discovery reads it.
#[derive(Debug)]
pub struct VolumeRow {
    pub symbol: String,
    pub volume: u64,
}

/// A symbol with the day for which its details were asked.
#[derive(Debug)]
pub struct Ticker {
    pub symbol: String,
    pub day: String,
}

/// A symbol with every `/` written as `.`.
pub open spec fn normalized(raw: Seq<char>) -> Seq<char> {
    Seq::new(raw.len(), |i: int| if raw[i] == '/' { '.' } else { raw[i] })
}

/// The symbols of a list, each as its characters.
pub open spec fn names(list: Seq<String>) -> Seq<Seq<char>> {
    Seq::new(list.len(), |i: int| list[i]@)
}

/// The symbols of a snapshot, each normalized.
pub open spec fn normalized_names(snapshot: Seq<String>) -> Seq<Seq<char>> {
    Seq::new(snapshot.len(), |i: int| normalized(snapshot[i]@))
}

/// The symbols of the rows that have traded volume, row by row.
pub open spec fn traded_names(rows: Seq<VolumeRow>) -> Seq<Seq<char>>
    decreases rows.len(),
{
    if rows.len() == 0 {
        Seq::empty()
    } else if rows.last().volume > 0 {
        traded_names(rows.drop_last()).push(rows.last().symbol@)
    } else {
        traded_names(rows.drop_last())
    }
}

/// The symbols in the sequence of their first occurrence, each once.
pub open spec fn kept_once(symbols: Seq<Seq<char>>) -> Seq<Seq<char>>
    decreases symbols.len(),
{
    if symbols.len() == 0 {
        Seq::empty()
    } else if kept_once(symbols.drop_last()).contains(symbols.last()) {
        kept_once(symbols.drop_last())
    } else {
        kept_once(symbols.drop_last()).push(symbols.last())
    }
}

/// The symbols that are not on the list `denied`, in their sequence.
pub open spec fn allowed(symbols: Seq<Seq<char>>, denied: Seq<Seq<char>>) -> Seq<Seq<char>>
    decreases symbols.len(),
{
    if symbols.len() == 0 {
        Seq::empty()
    } else if denied.contains(symbols.last()) {
        allowed(symbols.drop_last(), denied)
    } else {
        allowed(symbols.drop_last(), denied).push(symbols.last())
    }
}

/// Keeping each symbol once gives a set: no symbol occurs twice, and the
/// symbols that occur are those that occurred before.
pub proof fn law_kept_once_is_a_set(symbols: Seq<Seq<char>>)
    ensures
        kept_once(symbols).no_duplicates(),
        forall|s: Seq<char>| kept_once(symbols).contains(s) <==> symbols.contains(s),
    decreases symbols.len(),
{
    if symbols.len() > 0 {
        let front = symbols.drop_last();
        let last = symbols.last();
        law_kept_once_is_a_set(front);
        let kept = kept_once(front);
        assert forall|s: Seq<char>| kept_once(symbols).contains(s) <==> symbols.contains(
            s,
        ) by {
            if symbols.contains(s) {
                let i = choose|i: int| 0 <= i < symbols.len() && symbols[i] == s;
                if i < front.len() {
                    assert(front[i] == s);
                    assert(front.contains(s));
                    assert(kept.contains(s));
                    let j = choose|j: int| 0 <= j < kept.len() && kept[j] == s;
                    assert(kept_once(symbols)[j] == s);
                } else if kept.contains(last) {
                } else {
                    assert(kept_once(symbols)[kept.len() as int] == s);
                }
            }
            if kept_once(symbols).contains(s) {
                let j = choose|j: int| 0 <= j < kept_once(symbols).len() && kept_once(symbols)[j] == s;
                if j < kept.len() {
                    assert(kept[j] == s);
                    assert(front.contains(s));
                    let i = choose|i: int| 0 <= i < front.len() && front[i] == s;
                    assert(symbols[i] == s);
                } else {
                    assert(symbols[symbols.len() - 1] == s);
                }
            }
        }
    }
}

/// A symbol is among the traded names exactly when a row with traded
/// volume holds it.
pub proof fn law_traded_names_members(rows: Seq<VolumeRow>, s: Seq<char>)
    ensures
        traded_names(rows).contains(s) <==> exists|k: int|
            0 <= k < rows.len() && (#[trigger] rows[k]).volume > 0 && rows[k].symbol@ == s,
    decreases rows.len(),
{
    if rows.len() > 0 {
        let front = rows.drop_last();
        let last = rows.last();
        law_traded_names_members(front, s);
        let names = traded_names(rows);
        let before = traded_names(front);
        if names.contains(s) {
            let j = choose|j: int| 0 <= j < names.len() && names[j] == s;
            if j < before.len() {
                assert(before[j] == s);
                let k = choose|k: int|
                    0 <= k < front.len() && (#[trigger] front[k]).volume > 0 && front[k].symbol@
                        == s;
                assert(rows[k].volume > 0 && rows[k].symbol@ == s);
            } else {
                assert(rows[rows.len() - 1].volume > 0 && rows[rows.len() - 1].symbol@ == s);
            }
        }
        if exists|k: int|
            0 <= k < rows.len() && (#[trigger] rows[k]).volume > 0 && rows[k].symbol@ == s {
            let k = choose|k: int|
                0 <= k < rows.len() && (#[trigger] rows[k]).volume > 0 && rows[k].symbol@ == s;
            if k < front.len() {
                assert(front[k].volume > 0 && front[k].symbol@ == s);
                let j = choose|j: int| 0 <= j < before.len() && before[j] == s;
                assert(names[j] == s);
            } else {
                assert(names[before.len() as int] == s);
            }
        }
    }
}

/// Leaving out the denied symbols keeps exactly the symbols that are not
/// denied, and makes no symbol occur twice that did not before.
pub proof fn law_allowed_members(symbols: Seq<Seq<char>>, denied: Seq<Seq<char>>)
    ensures
        forall|s: Seq<char>|
            allowed(symbols, denied).contains(s) <==> symbols.contains(s) && !denied.contains(s),
        symbols.no_duplicates() ==> allowed(symbols, denied).no_duplicates(),
        allowed(symbols, denied).len() <= symbols.len(),
    decreases symbols.len(),
{
    if symbols.len() > 0 {
        let front = symbols.drop_last();
        let last = symbols.last();
        law_allowed_members(front, denied);
        let kept = allowed(front, denied);
        let all = allowed(symbols, denied);
        assert forall|s: Seq<char>| all.contains(s) <==> symbols.contains(s) && !denied.contains(
            s,
        ) by {
            if symbols.contains(s) && !denied.contains(s) {
                let i = choose|i: int| 0 <= i < symbols.len() && symbols[i] == s;
                if i < front.len() {
                    assert(front[i] == s);
                    assert(front.contains(s));
                    assert(kept.contains(s));
                    let j = choose|j: int| 0 <= j < kept.len() && kept[j] == s;
                    assert(all[j] == s);
                } else {
                    assert(all[kept.len() as int] == s);
                }
            }
            if all.contains(s) {
                let j = choose|j: int| 0 <= j < all.len() && all[j] == s;
                if j < kept.len() {
                    assert(kept[j] == s);
                    assert(front.contains(s));
                    let i = choose|i: int| 0 <= i < front.len() && front[i] == s;
                    assert(symbols[i] == s);
                } else {
                    assert(symbols[symbols.len() - 1] == s);
                }
            }
        }
        if symbols.no_duplicates() {
            assert(front.no_duplicates());
            if !denied.contains(last) {
                assert forall|i: int, j: int| 0 <= i < j < all.len() implies all[i] != all[j] by {
                    if j == kept.len() {
                        assert(kept[i] == all[i]);
                        assert(kept.contains(all[i]));
                        assert(front.contains(all[i]));
                        let k = choose|k: int| 0 <= k < front.len() && front[k] == all[i];
                        assert(symbols[k] != symbols[symbols.len() - 1]);
                    } else {
                        assert(kept[i] != kept[j]);
                    }
                }
            }
        }
    }
}

/// The text with every occurrence of the character `from` turned into `to`.
pub open spec fn with_replaced(text: Seq<char>, from: char, to: char) -> Seq<char> {
    Seq::new(text.len(), |i: int| if text[i] == from { to } else { text[i] })
}

/// `str::replace` of std, with strings as pattern and replacement: every
/// match of the pattern is replaced. Where both are of one character each,
/// that is every occurrence of the one character turned into the other,
/// and every other character unchanged.
#[verifier::external_body]
fn replace_one(text: &str, from: &str, to: &str) -> (r: String)
    requires
        from@.len() == 1,
        to@.len() == 1,
    ensures
        r@ == with_replaced(text@, from@[0], to@[0]),
{
    text.replace(from, to)
}

/// The symbol as it is stored: every `/` written as `.`.
pub fn normalize_symbol(raw: &str) -> (symbol: String)
    ensures
        symbol@ == normalized(raw@),
{
    proof {
        reveal_strlit("/");
        reveal_strlit(".");
    }
    let symbol: String = replace_one(raw, "/", ".");
    proof {
        assert(symbol@ =~= normalized(raw@));
    }
    symbol
}

/// Whether `symbol` is an entry of `list`.
pub fn contains_symbol(list: &Vec<String>, symbol: &String) -> (found: bool)
    ensures
        found == names(list@).contains(symbol@),
{
    let mut i: usize = 0;
    while i < list.len()
        invariant
            i <= list@.len(),
            forall|j: int| 0 <= j < i ==> (#[trigger] names(list@)[j]) != symbol@,
        decreases list@.len() - i,
    {
        if list[i] == *symbol {
            assert(names(list@)[i as int] == symbol@);
            return true;
        }
        i += 1;
    }
    false
}

/// The symbols of a period from the provider's snapshot: each symbol
/// normalized, and each kept once, in the sequence of its first occurrence.
pub fn list_tickers_day(snapshot: &Vec<String>) -> (tickers: Vec<String>)
    ensures
        names(tickers@) == kept_once(normalized_names(snapshot@)),
        names(tickers@).no_duplicates(),
{
    let mut tickers: Vec<String> = Vec::new();
    let mut k: usize = 0;
    proof {
        assert(normalized_names(snapshot@).subrange(0, 0) =~= Seq::<Seq<char>>::empty());
        assert(names(tickers@) =~= Seq::<Seq<char>>::empty());
    }
    while k < snapshot.len()
        invariant
            k <= snapshot@.len(),
            names(tickers@) == kept_once(normalized_names(snapshot@).subrange(0, k as int)),
        decreases snapshot@.len() - k,
    {
        let symbol: String = normalize_symbol(snapshot[k].as_str());
        let ghost before = tickers@;
        proof {
            let all = normalized_names(snapshot@);
            assert(all.subrange(0, k as int + 1).drop_last() =~= all.subrange(0, k as int));
            assert(all.subrange(0, k as int + 1).last() == symbol@);
        }
        if !contains_symbol(&tickers, &symbol) {
            tickers.push(symbol);
            proof {
                assert(names(tickers@) =~= names(before).push(tickers@[before.len() as int]@));
            }
        }
        k += 1;
    }
    proof {
        let all = normalized_names(snapshot@);
        assert(all.subrange(0, k as int) =~= all);
        law_kept_once_is_a_set(all);
    }
    tickers
}

/// The symbols of a period from bars that are already committed: every
/// symbol of a row with traded volume, each kept once, in the sequence of
/// its first occurrence.
pub fn symbols_with_volume(rows: &Vec<VolumeRow>) -> (symbols: Vec<String>)
    ensures
        names(symbols@) == kept_once(traded_names(rows@)),
        names(symbols@).no_duplicates(),
{
    let mut symbols: Vec<String> = Vec::new();
    let mut k: usize = 0;
    proof {
        assert(names(symbols@) =~= Seq::<Seq<char>>::empty());
    }
    while k < rows.len()
        invariant
            k <= rows@.len(),
            names(symbols@) == kept_once(traded_names(rows@.subrange(0, k as int))),
        decreases rows@.len() - k,
    {
        let ghost before = symbols@;
        proof {
            let seen = traded_names(rows@.subrange(0, k as int));
            let name = rows@[k as int].symbol@;
            assert(rows@.subrange(0, k as int + 1).drop_last() =~= rows@.subrange(0, k as int));
            assert(rows@.subrange(0, k as int + 1).last() == rows@[k as int]);
            assert(seen.push(name).drop_last() =~= seen);
            assert(seen.push(name).last() == name);
        }
        if rows[k].volume > 0 && !contains_symbol(&symbols, &rows[k].symbol) {
            symbols.push(rows[k].symbol.clone());
            proof {
                assert(names(symbols@) =~= names(before).push(symbols@[before.len() as int]@));
            }
        }
        k += 1;
    }
    proof {
        assert(rows@.subrange(0, k as int) =~= rows@);
        law_kept_once_is_a_set(traded_names(rows@));
    }
    symbols
}

/// The symbols of `symbols` that are not on the list `denied`, in their
/// sequence.
pub fn without_denied(symbols: &Vec<String>, denied: &Vec<String>) -> (kept: Vec<String>)
    ensures
        names(kept@) == allowed(names(symbols@), names(denied@)),
{
    let mut kept: Vec<String> = Vec::new();
    let mut k: usize = 0;
    proof {
        assert(names(symbols@).subrange(0, 0) =~= Seq::<Seq<char>>::empty());
        assert(names(kept@) =~= Seq::<Seq<char>>::empty());
    }
    while k < symbols.len()
        invariant
            k <= symbols@.len(),
            names(kept@) == allowed(names(symbols@).subrange(0, k as int), names(denied@)),
        decreases symbols@.len() - k,
    {
        let ghost before = kept@;
        proof {
            let all = names(symbols@);
            assert(all.subrange(0, k as int + 1).drop_last() =~= all.subrange(0, k as int));
            assert(all.subrange(0, k as int + 1).last() == symbols@[k as int]@);
        }
        if !contains_symbol(denied, &symbols[k]) {
            kept.push(symbols[k].clone());
            proof {
                assert(names(kept@) =~= names(before).push(kept@[before.len() as int]@));
            }
        }
        k += 1;
    }
    proof {
        assert(names(symbols@).subrange(0, k as int) =~= names(symbols@));
    }
    kept
}

/// The symbols that are fetched before all others: they trade so much that
/// their download takes longest.
pub open spec fn highly_traded_list() -> Seq<Seq<char>> {
    seq![
        "AAPL"@,
        "TSLA"@,
        "SPY"@,
        "SQQQ"@,
        "TQQQ"@,
        "NVDA"@,
        "AMD"@,
        "QQQ"@,
        "META"@,
        "MSFT"@,
        "GOOGL"@,
        "SOXL"@,
        "GOOG"@,
        "BABA"@,
        "NIO"@,
        "XLE"@,
        "DIS"@,
        "VOO"@,
    ]
}

/// Whether a symbol is fetched before all others.
pub open spec fn highly_traded(symbol: Seq<char>) -> bool {
    highly_traded_list().contains(symbol)
}

/// `a` may be fetched before `b`: a highly traded symbol before any other,
/// highly traded symbols in any sequence, and the others by their bytes.
pub open spec fn priority_le(a: Seq<char>, b: Seq<char>) -> bool {
    highly_traded(a) || (!highly_traded(b) && bytes_le(symbol_bytes(a), symbol_bytes(b)))
}

/// The symbols that are fetched before all others.
pub fn highly_traded_symbols() -> (list: Vec<String>)
    ensures
        list@.len() == highly_traded_list().len(),
        forall|i: int| 0 <= i < list@.len() ==> (#[trigger] list@[i])@ == highly_traded_list()[i],
{
    let mut list: Vec<String> = Vec::new();
    list.push(String::from_str("AAPL"));
    list.push(String::from_str("TSLA"));
    list.push(String::from_str("SPY"));
    list.push(String::from_str("SQQQ"));
    list.push(String::from_str("TQQQ"));
    list.push(String::from_str("NVDA"));
    list.push(String::from_str("AMD"));
    list.push(String::from_str("QQQ"));
    list.push(String::from_str("META"));
    list.push(String::from_str("MSFT"));
    list.push(String::from_str("GOOGL"));
    list.push(String::from_str("SOXL"));
    list.push(String::from_str("GOOG"));
    list.push(String::from_str("BABA"));
    list.push(String::from_str("NIO"));
    list.push(String::from_str("XLE"));
    list.push(String::from_str("DIS"));
    list.push(String::from_str("VOO"));
    list
}

/// Whether `symbol` is fetched before all others.
pub fn is_highly_traded(symbol: &String) -> (r: bool)
    ensures
        r == highly_traded(symbol@),
{
    let list: Vec<String> = highly_traded_symbols();
    let found: bool = contains_symbol(&list, symbol);
    proof {
        assert(names(list@) =~= highly_traded_list());
    }
    found
}

/// The sequence in which the symbols of a day are fetched: each position of
/// `tickers` exactly once, the highly traded symbols first and the others
/// after them by their bytes.
pub fn prioritize(tickers: &Vec<String>) -> (order: Vec<usize>)
    ensures
        is_arrangement(order@, tickers@.len()),
        forall|i: int, j: int|
            0 <= i < j < order@.len() ==> priority_le(
                (#[trigger] tickers@[order@[i] as int])@,
                (#[trigger] tickers@[order@[j] as int])@,
            ),
{
    let first: Vec<String> = highly_traded_symbols();
    proof {
        assert(names(first@) =~= highly_traded_list());
    }
    let mut keys: Vec<RecordKey> = Vec::new();
    let mut k: usize = 0;
    while k < tickers.len()
        invariant
            k <= tickers@.len(),
            keys@.len() == k,
            names(first@) == highly_traded_list(),
            forall|i: int|
                0 <= i < k ==> {
                    let key = #[trigger] keys@[i];
                    if highly_traded(tickers@[i]@) {
                        key.timestamp == 0 && key.symbol@ == Seq::<char>::empty()
                    } else {
                        key.timestamp == 1 && key.symbol@ == tickers@[i]@
                    }
                },
        decreases tickers@.len() - k,
    {
        let key: RecordKey = if contains_symbol(&first, &tickers[k]) {
            RecordKey { timestamp: 0, symbol: String::new() }
        } else {
            RecordKey { timestamp: 1, symbol: tickers[k].clone() }
        };
        keys.push(key);
        k += 1;
    }
    let order: Vec<usize> = sort_order(OrderBy::TimeThenSymbol, &keys);
    proof {
        assert forall|i: int, j: int| 0 <= i < j < order@.len() implies priority_le(
            (#[trigger] tickers@[order@[i] as int])@,
            (#[trigger] tickers@[order@[j] as int])@,
        ) by {
            let a = keys@[order@[i] as int];
            let b = keys@[order@[j] as int];
            assert(key_le(OrderBy::TimeThenSymbol, a, b));
        }
    }
    order
}

} // verus!
