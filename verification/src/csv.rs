use vstd::prelude::*;
use vstd::string::StrSliceExecFns;

use crate::account::Account;
use crate::category::Category;
use crate::database::Database;
use crate::dates::{all_digits, digit_val, digits_val};
use crate::error::RytError;
use crate::transaction::Transaction;

verus! {

/// The position of the first occurrence of `c`, if any.
pub open spec fn first_char(s: Seq<char>, c: char) -> Option<int>
    decreases s.len(),
{
    if s.len() == 0 {
        None
    } else if s.first() == c {
        Some(0)
    } else {
        match first_char(s.drop_first(), c) {
            Some(i) => Some(i + 1),
            None => None,
        }
    }
}

proof fn lemma_first_char_at(s: Seq<char>, c: char, p: int)
    requires
        0 <= p < s.len(),
        s[p] == c,
        forall|k: int| 0 <= k < p ==> s[k] != c,
    ensures
        first_char(s, c) == Some(p),
    decreases s.len(),
{
    if s.first() == c {
        assert(p == 0);
    } else {
        assert(p >= 1);
        assert(s.drop_last().len() >= 0);
        assert(s.drop_first()[p - 1] == s[p]);
        assert(forall|k: int| 0 <= k < p - 1 ==> #[trigger] s.drop_first()[k] == s[k + 1]);
        lemma_first_char_at(s.drop_first(), c, p - 1);
    }
}

proof fn lemma_first_char_none(s: Seq<char>, c: char)
    requires
        forall|k: int| 0 <= k < s.len() ==> s[k] != c,
    ensures
        first_char(s, c) is None,
    decreases s.len(),
{
    if s.len() > 0 {
        assert(forall|k: int| 0 <= k < s.drop_first().len() ==> #[trigger] s.drop_first()[k] == s[k
            + 1]);
        lemma_first_char_none(s.drop_first(), c);
    }
}

/// Finds the first occurrence of `c` in `s`.
fn find_char(s: &str, c: char) -> (r: Option<usize>)
    ensures
        r is Some <==> first_char(s@, c) is Some,
        r is Some ==> first_char(s@, c) == Some(r->0 as int),
        r is Some ==> r->0 < s@.len(),
{
    let n = s.unicode_len();
    let mut i: usize = 0;
    while i < n
        invariant
            n == s@.len(),
            0 <= i <= n,
            forall|k: int| 0 <= k < i ==> s@[k] != c,
        decreases n - i,
    {
        if s.get_char(i) == c {
            proof {
                lemma_first_char_at(s@, c, i as int);
            }
            return Some(i);
        }
        i = i + 1;
    }
    proof {
        lemma_first_char_none(s@, c);
    }
    None
}

/// A line of the external format split on every comma; one more field than
/// there are commas, fields in order, separators dropped.
pub open spec fn split_commas(s: Seq<char>) -> Seq<Seq<char>>
    decreases s.len(),
{
    match first_char(s, ',') {
        None => seq![s],
        // a found position always lies within the sequence; the bound is
        // restated here so the recursion visibly shrinks
        Some(i) => if 0 <= i < s.len() {
            seq![s.take(i)] + split_commas(s.skip(i + 1))
        } else {
            seq![s]
        },
    }
}

/// Splits a line on every comma.
pub fn split_csv_line(s: &str) -> (r: Vec<String>)
    ensures
        r@.map_values(|x: String| x@) == split_commas(s@),
    decreases s@.len(),
{
    let n = s.unicode_len();
    match find_char(s, ',') {
        None => {
            let mut out: Vec<String> = Vec::new();
            out.push(s.to_owned());
            proof {
                assert(out@.map_values(|x: String| x@) =~= split_commas(s@));
            }
            out
        },
        Some(i) => {
            let head = s.substring_char(0, i).to_owned();
            let tail = s.substring_char(i + 1, n);
            let mut rest = split_csv_line(tail);
            rest.insert(0, head);
            proof {
                assert(s@.subrange(0, i as int) =~= s@.take(i as int));
                assert(s@.subrange(i as int + 1, n as int) =~= s@.skip(i as int + 1));
                assert(rest@.map_values(|x: String| x@) =~= split_commas(s@));
            }
            rest
        },
    }
}

/// Whitespace as the external number fields may carry it.
pub open spec fn is_space(c: char) -> bool {
    c == ' ' || c == '\t' || c == '\r' || c == '\n'
}

/// The sequence with leading whitespace dropped.
pub open spec fn trim_front(s: Seq<char>) -> Seq<char>
    decreases s.len(),
{
    if s.len() > 0 && is_space(s.first()) {
        trim_front(s.drop_first())
    } else {
        s
    }
}

/// The sequence with trailing whitespace dropped.
pub open spec fn trim_back(s: Seq<char>) -> Seq<char>
    decreases s.len(),
{
    if s.len() > 0 && is_space(s.last()) {
        trim_back(s.drop_last())
    } else {
        s
    }
}

/// The sequence with whitespace dropped from both ends.
pub open spec fn trimmed(s: Seq<char>) -> Seq<char> {
    trim_back(trim_front(s))
}

proof fn lemma_trim_front_skip(s: Seq<char>, k: int)
    requires
        0 <= k <= s.len(),
        forall|i: int| 0 <= i < k ==> is_space(#[trigger] s[i]),
        k == s.len() || !is_space(s[k]),
    ensures
        trim_front(s) == s.skip(k),
    decreases k,
{
    if k == 0 {
        assert(s.skip(0) =~= s);
    } else {
        assert(is_space(s.first()));
        assert(forall|i: int| 0 <= i < k - 1 ==> #[trigger] s.drop_first()[i] == s[i + 1]);
        if k < s.len() {
            assert(s.drop_first()[k - 1] == s[k]);
        }
        lemma_trim_front_skip(s.drop_first(), k - 1);
        assert(s.drop_first().skip(k - 1) =~= s.skip(k));
    }
}

proof fn lemma_trim_back_take(s: Seq<char>, k: int)
    requires
        0 <= k <= s.len(),
        forall|i: int| k <= i < s.len() ==> is_space(#[trigger] s[i]),
        k == 0 || !is_space(s[k - 1]),
    ensures
        trim_back(s) == s.take(k),
    decreases s.len(),
{
    if k == s.len() {
        if s.len() > 0 && is_space(s.last()) {
            assert(false);
        }
        assert(s.take(k) =~= s);
    } else {
        assert(is_space(s.last()));
        assert(forall|i: int| 0 <= i < s.drop_last().len() ==> #[trigger] s.drop_last()[i] == s[i]);
        lemma_trim_back_take(s.drop_last(), k);
        assert(s.drop_last().take(k) =~= s.take(k));
    }
}

/// The trimmed middle of `s`, as a borrowed slice.
fn trim_str<'a>(s: &'a str) -> (r: &'a str)
    ensures
        r@ == trimmed(s@),
{
    let n = s.unicode_len();
    let mut lo: usize = 0;
    while lo < n && is_space_char(s.get_char(lo))
        invariant
            n == s@.len(),
            0 <= lo <= n,
            forall|i: int| 0 <= i < lo ==> is_space(#[trigger] s@[i]),
        decreases n - lo,
    {
        lo = lo + 1;
    }
    proof {
        lemma_trim_front_skip(s@, lo as int);
    }
    let mut hi: usize = n;
    while hi > lo && is_space_char(s.get_char(hi - 1))
        invariant
            n == s@.len(),
            lo <= hi <= n,
            forall|i: int| 0 <= i < lo ==> is_space(#[trigger] s@[i]),
            forall|i: int| hi <= i < n ==> is_space(#[trigger] s@[i]),
        decreases hi,
    {
        hi = hi - 1;
    }
    let out = s.substring_char(lo, hi);
    proof {
        let f = s@.skip(lo as int);
        assert(forall|i: int| hi - lo <= i < f.len() ==> #[trigger] f[i] == s@[i + lo]);
        if hi > lo {
            assert(f[hi - lo - 1] == s@[hi - 1]);
        }
        lemma_trim_back_take(f, hi - lo);
        assert(f.take(hi - lo) =~= s@.subrange(lo as int, hi as int));
    }
    out
}

fn is_space_char(c: char) -> (r: bool)
    ensures
        r == is_space(c),
{
    c == ' ' || c == '\t' || c == '\r' || c == '\n'
}

/// The fraction digits of a decimal numeral read to cents: the first two
/// digits, rounded up (away from zero) where a third digit of five or more
/// follows.
pub open spec fn frac_cents(f: Seq<char>) -> int {
    let d0 = if f.len() >= 1 {
        digit_val(f[0])
    } else {
        0
    };
    let d1 = if f.len() >= 2 {
        digit_val(f[1])
    } else {
        0
    };
    d0 * 10 + d1 + (if f.len() >= 3 && digit_val(f[2]) >= 5 {
        1int
    } else {
        0int
    })
}

/// What a currency field of the external format means, in cents: an optional
/// sign, digits, and an optional dot with fraction digits — at least one
/// digit in all, read after trimming; anything else means nothing.
pub open spec fn spec_money_cents(s: Seq<char>) -> Option<int> {
    let t = trimmed(s);
    let neg = t.len() > 0 && t[0] == '-';
    let u = if t.len() > 0 && (t[0] == '-' || t[0] == '+') {
        t.drop_first()
    } else {
        t
    };
    let unsigned = (match first_char(u, '.') {
        None => if u.len() >= 1 && all_digits(u) {
            Some(digits_val(u) * 100)
        } else {
            None
        },
        Some(p) => {
            let ip = u.take(p);
            let fp = u.skip(p + 1);
            if first_char(fp, '.') is None && all_digits(ip) && all_digits(fp) && ip.len()
                + fp.len() >= 1 {
                Some(digits_val(ip) * 100 + frac_cents(fp))
            } else {
                None
            }
        },
    });
    match unsigned {
        Some(v) => Some(
            if neg {
                -v
            } else {
                v
            },
        ),
        None => None,
    }
}

/// A currency field read to 64-bit cents: an unreadable field — bad shape or
/// a value outside the 64-bit cent range — counts as zero, as an unparsable
/// field does in the source format.
pub open spec fn money_or_zero(s: Seq<char>) -> int {
    match spec_money_cents(s) {
        Some(c) => if i64::MIN <= c <= i64::MAX {
            c
        } else {
            0
        },
        None => 0,
    }
}


proof fn lemma_digits_val_nonneg(s: Seq<char>)
    requires
        all_digits(s),
    ensures
        digits_val(s) >= 0,
    decreases s.len(),
{
    if s.len() > 0 {
        assert(all_digits(s.drop_last())) by {
            assert(forall|i: int|
                0 <= i < s.drop_last().len() ==> #[trigger] s.drop_last()[i] == s[i]);
        }
        lemma_digits_val_nonneg(s.drop_last());
        assert(digit_val(s.last()) >= 0);
    }
}

/// Reads a whole string of decimal digits, reporting whether the value
/// reaches the 64-bit signed boundary instead of overflowing.
fn read_digits_capped(s: &str) -> (r: Option<(u64, bool)>)
    ensures
        r is Some <==> all_digits(s@),
        r is Some ==> {
            let (v, big) = r->0;
            &&& (big ==> digits_val(s@) >= 0x8000000000000000)
            &&& (!big ==> v as int == digits_val(s@) && v < 0x8000000000000000)
        },
{
    let n = s.unicode_len();
    let mut acc: u128 = 0;
    let mut big: bool = false;
    let mut i: usize = 0;
    proof {
        assert(s@.take(0) =~= Seq::<char>::empty());
    }
    while i < n
        invariant
            n == s@.len(),
            0 <= i <= n,
            all_digits(s@.take(i as int)),
            big ==> digits_val(s@.take(i as int)) >= 0x8000000000000000,
            !big ==> acc as int == digits_val(s@.take(i as int)) && acc < 0x8000000000000000,
        decreases n - i,
    {
        let c = s.get_char(i);
        if c < '0' || c > '9' {
            proof {
                assert(s@[i as int] == c);
            }
            return None;
        }
        let d: u128 = (c as u128) - 48;
        proof {
            assert(s@.take(i as int + 1).drop_last() =~= s@.take(i as int));
            assert(s@.take(i as int + 1).last() == s@[i as int]);
            lemma_digits_val_nonneg(s@.take(i as int));
        }
        if !big {
            acc = acc * 10 + d;
            if acc >= 0x8000000000000000u128 {
                big = true;
            }
        }
        i = i + 1;
    }
    proof {
        assert(s@.take(n as int) =~= s@);
    }
    if big {
        Some((0, true))
    } else {
        Some((acc as u64, false))
    }
}

/// Reads the fraction digits of a currency field to cents: the first two
/// digits, rounded up where a third of five or more follows.
fn read_frac_cents(s: &str) -> (r: Option<u64>)
    ensures
        r is Some <==> all_digits(s@),
        r is Some ==> r->0 as int == frac_cents(s@) && r->0 <= 100,
{
    let n = s.unicode_len();
    let mut i: usize = 0;
    while i < n
        invariant
            n == s@.len(),
            0 <= i <= n,
            all_digits(s@.take(i as int)),
        decreases n - i,
    {
        let c = s.get_char(i);
        if c < '0' || c > '9' {
            proof {
                assert(s@[i as int] == c);
            }
            return None;
        }
        proof {
            assert(s@.take(i as int + 1).drop_last() =~= s@.take(i as int));
            assert(s@.take(i as int + 1).last() == s@[i as int]);
        }
        i = i + 1;
    }
    proof {
        assert(s@.take(n as int) =~= s@);
    }
    let d0: u64 = if n >= 1 {
        (s.get_char(0) as u64) - 48
    } else {
        0
    };
    let d1: u64 = if n >= 2 {
        (s.get_char(1) as u64) - 48
    } else {
        0
    };
    let up: u64 = if n >= 3 && s.get_char(2) >= '5' {
        1
    } else {
        0
    };
    Some(d0 * 10 + d1 + up)
}

/// Reads a currency field of the external format to 64-bit cents; an
/// unreadable field, or a value outside the 64-bit cent range, counts as
/// zero.
pub fn parse_money_cents(s: &str) -> (r: i64)
    ensures
        r as int == money_or_zero(s@),
{
    let t = trim_str(s);
    let tn = t.unicode_len();
    let mut neg: bool = false;
    let mut signed: bool = false;
    if tn > 0 {
        let c0 = t.get_char(0);
        if c0 == '-' {
            neg = true;
            signed = true;
        } else if c0 == '+' {
            signed = true;
        }
    }
    let u: &str = if signed {
        t.substring_char(1, tn)
    } else {
        t
    };
    proof {
        if signed {
            assert(t@.subrange(1, tn as int) =~= t@.drop_first());
        }
    }
    let un = u.unicode_len();
    let combined: Option<(u64, bool, u64)> = match find_char(u, '.') {
        None => {
            if un == 0 {
                None
            } else {
                match read_digits_capped(u) {
                    Some((v, big)) => Some((v, big, 0)),
                    None => None,
                }
            }
        },
        Some(p) => {
            let ip = u.substring_char(0, p);
            let fp = u.substring_char(p + 1, un);
            proof {
                assert(u@.subrange(0, p as int) =~= u@.take(p as int));
                assert(u@.subrange(p as int + 1, un as int) =~= u@.skip(p as int + 1));
            }
            if ip.unicode_len() == 0 && fp.unicode_len() == 0 {
                None
            } else {
                match find_char(fp, '.') {
                    Some(_) => None,
                    None => {
                        match (read_digits_capped(ip), read_frac_cents(fp)) {
                            (Some((v, big)), Some(fr)) => Some((v, big, fr)),
                            _ => None,
                        }
                    },
                }
            }
        },
    };
    match combined {
        None => 0,
        Some((v, big, fr)) => {
            if big {
                proof {
                    let c = spec_money_cents(s@)->0;
                    assert(c > i64::MAX || c < i64::MIN);
                }
                0
            } else {
                let total: u128 = (v as u128) * 100 + (fr as u128);
                if !neg {
                    if total <= 9223372036854775807u128 {
                        total as i64
                    } else {
                        0
                    }
                } else {
                    if total == 0 {
                        0
                    } else if total <= 9223372036854775807u128 {
                        -(total as i64)
                    } else if total == 9223372036854775808u128 {
                        i64::MIN
                    } else {
                        0
                    }
                }
            }
        },
    }
}


/// The view of one stored transaction: its fields over mathematical values.
#[verifier::ext_equal]
pub struct TxView {
    pub payee: Seq<char>,
    pub notes: Seq<char>,
    pub account_id: i64,
    pub category_id: i64,
    pub date: int,
    pub amount: int,
}

/// The view of one stored category.
#[verifier::ext_equal]
pub struct CatView {
    pub id: i64,
    pub name: Seq<char>,
}

pub open spec fn tx_view(t: Transaction) -> TxView {
    TxView {
        payee: t.payee@,
        notes: t.notes@,
        account_id: t.account_id,
        category_id: t.category_id,
        date: t.date as int,
        amount: t.amount as int,
    }
}

pub open spec fn tx_views(ts: Seq<Transaction>) -> Seq<TxView> {
    ts.map_values(|t: Transaction| tx_view(t))
}

pub open spec fn cat_view(c: Category) -> CatView {
    CatView { id: c.id, name: c.display_name@ }
}

pub open spec fn cat_views(cats: Seq<Category>) -> Seq<CatView> {
    cats.map_values(|c: Category| cat_view(c))
}

pub open spec fn cat_view_ids(cats: Seq<CatView>) -> Seq<i64> {
    cats.map_values(|c: CatView| c.id)
}

/// What one data row of the external format contributes, before it touches
/// the ledger.
#[verifier::ext_equal]
pub struct RowView {
    pub payee: Seq<char>,
    pub amount: int,
    pub date: int,
    pub outflow_positive: bool,
    pub category: Seq<char>,
}

/// What a data row of the external format means, or why it is malformed. The
/// columns are: account label (ignored), date, payee, outflow, inflow,
/// category. Amount fields that do not read as decimals count as zero, and
/// the row must then still name exactly one positive flow.
pub open spec fn parse_row(line: Seq<char>) -> Result<RowView, Seq<char>> {
    let fields = split_commas(line);
    if fields.len() < 6 {
        Err("row has too few fields"@)
    } else {
        match crate::dates::spec_parse_date(fields[1]) {
            None => Err("invalid date"@),
            Some((y, m, d)) => {
                let outflow = money_or_zero(fields[3]);
                let inflow = money_or_zero(fields[4]);
                if inflow != 0 && outflow != 0 {
                    Err("Cannot create transaction with both inflow and outflow."@)
                } else if inflow <= 0 && outflow <= 0 {
                    Err("Cannot create transaction with no outflow and no inflow."@)
                } else {
                    Ok(
                        RowView {
                            payee: fields[2],
                            amount: if inflow > 0 {
                                inflow
                            } else {
                                -outflow
                            },
                            date: crate::dates::unix_of_date(y, m, d),
                            outflow_positive: outflow > 0,
                            category: fields[5],
                        },
                    )
                }
            },
        }
    }
}

/// The identity of the first category with the given name, if any.
pub open spec fn first_category_id(cats: Seq<CatView>, name: Seq<char>) -> Option<i64>
    decreases cats.len(),
{
    if cats.len() == 0 {
        None
    } else if cats.first().name == name {
        Some(cats.first().id)
    } else {
        first_category_id(cats.drop_first(), name)
    }
}

/// How one parsed row changes the ledger: an outflow row resolves its
/// category by name, creating it first where it is absent; an inflow row is
/// left uncategorized. The transaction is then appended.
pub open spec fn apply_row(
    cats: Seq<CatView>,
    txs: Seq<TxView>,
    row: RowView,
    account_id: i64,
) -> (Seq<CatView>, Seq<TxView>) {
    let resolved = (if row.outflow_positive {
        match first_category_id(cats, row.category) {
            Some(id) => (cats, id),
            None => {
                let id = crate::database::next_id(cat_view_ids(cats)) as i64;
                (cats.push(CatView { id, name: row.category }), id)
            },
        }
    } else {
        (cats, 0i64)
    });
    let t = TxView {
        payee: row.payee,
        notes: Seq::empty(),
        account_id,
        category_id: resolved.1,
        date: row.date,
        amount: row.amount,
    };
    (resolved.0, txs.push(t))
}

/// The import pipeline over the lines `[i, end)`: each line is parsed and
/// applied in turn; a malformed line stops everything with its 1-based line
/// number and the reason.
pub open spec fn import_upto(
    cats: Seq<CatView>,
    txs: Seq<TxView>,
    lines: Seq<Seq<char>>,
    i: int,
    end: int,
    account_id: i64,
) -> Result<(Seq<CatView>, Seq<TxView>), (int, Seq<char>)>
    decreases end - i,
{
    if i >= end {
        Ok((cats, txs))
    } else {
        match parse_row(lines[i]) {
            Err(reason) => Err((i + 1, reason)),
            Ok(row) => {
                let stepped = apply_row(cats, txs, row, account_id);
                import_upto(stepped.0, stepped.1, lines, i + 1, end, account_id)
            },
        }
    }
}

proof fn lemma_import_upto_err(
    cats: Seq<CatView>,
    txs: Seq<TxView>,
    lines: Seq<Seq<char>>,
    i: int,
    k: int,
    end: int,
    account_id: i64,
)
    requires
        i <= k < end,
        forall|j: int| i <= j < k ==> parse_row(#[trigger] lines[j]) is Ok,
        parse_row(lines[k]) is Err,
    ensures
        import_upto(cats, txs, lines, i, end, account_id) == Result::<
            (Seq<CatView>, Seq<TxView>),
            (int, Seq<char>),
        >::Err((k + 1, parse_row(lines[k])->Err_0)),
    decreases k - i,
{
    if i < k {
        let row = parse_row(lines[i])->Ok_0;
        let stepped = apply_row(cats, txs, row, account_id);
        lemma_import_upto_err(stepped.0, stepped.1, lines, i + 1, k, end, account_id);
    }
}

proof fn lemma_import_upto_extend(
    cats: Seq<CatView>,
    txs: Seq<TxView>,
    lines: Seq<Seq<char>>,
    i: int,
    end: int,
    account_id: i64,
)
    requires
        i <= end < lines.len(),
        import_upto(cats, txs, lines, i, end, account_id) is Ok,
        parse_row(lines[end]) is Ok,
    ensures
        ({
            let mid = import_upto(cats, txs, lines, i, end, account_id)->Ok_0;
            import_upto(cats, txs, lines, i, end + 1, account_id) == Result::<
                (Seq<CatView>, Seq<TxView>),
                (int, Seq<char>),
            >::Ok(apply_row(mid.0, mid.1, parse_row(lines[end])->Ok_0, account_id))
        }),
    decreases end - i,
{
    if i < end {
        let row = parse_row(lines[i])->Ok_0;
        let stepped = apply_row(cats, txs, row, account_id);
        lemma_import_upto_extend(stepped.0, stepped.1, lines, i + 1, end, account_id);
    } else {
        let row = parse_row(lines[end])->Ok_0;
        let stepped = apply_row(cats, txs, row, account_id);
        assert(import_upto(stepped.0, stepped.1, lines, end + 1, end + 1, account_id)
            == Result::<(Seq<CatView>, Seq<TxView>), (int, Seq<char>)>::Ok(stepped));
        assert(import_upto(cats, txs, lines, i, end, account_id) == Result::<
            (Seq<CatView>, Seq<TxView>),
            (int, Seq<char>),
        >::Ok((cats, txs)));
    }
}

proof fn lemma_import_upto_ok(
    cats: Seq<CatView>,
    txs: Seq<TxView>,
    lines: Seq<Seq<char>>,
    i: int,
    end: int,
    account_id: i64,
)
    requires
        i <= end,
        forall|j: int| i <= j < end ==> parse_row(#[trigger] lines[j]) is Ok,
    ensures
        import_upto(cats, txs, lines, i, end, account_id) is Ok,
    decreases end - i,
{
    if i < end {
        let row = parse_row(lines[i])->Ok_0;
        let stepped = apply_row(cats, txs, row, account_id);
        lemma_import_upto_ok(stepped.0, stepped.1, lines, i + 1, end, account_id);
    }
}

proof fn lemma_first_category_id_chars(cats: Seq<Category>, name: Seq<char>)
    ensures
        first_category_id(cat_views(cats), name) is Some <==> (exists|i: int|
            0 <= i < cats.len() && #[trigger] cats[i].display_name@ == name),
        forall|i: int|
            0 <= i < cats.len() && (#[trigger] cats[i].display_name@) == name && (forall|j: int|
                0 <= j < i ==> #[trigger] cats[j].display_name@ != name)
                ==> first_category_id(cat_views(cats), name) == Some(cats[i].id),
    decreases cats.len(),
{
    let cv = cat_views(cats);
    if cats.len() == 0 {
    } else {
        assert(cv.first() == cat_view(cats.first()));
        assert(cat_views(cats.drop_first()) =~= cv.drop_first());
        lemma_first_category_id_chars(cats.drop_first(), name);
        assert(forall|i: int|
            0 <= i < cats.drop_first().len() ==> #[trigger] cats.drop_first()[i] == cats[i + 1]);
        if cats.first().display_name@ == name {
            assert(cats[0].display_name@ == name);
        } else {
            assert((exists|i: int|
                0 <= i < cats.len() && #[trigger] cats[i].display_name@ == name) <==> (exists|
                i: int,
            |
                0 <= i < cats.drop_first().len() && #[trigger] cats.drop_first()[i].display_name@
                    == name)) by {
                if exists|i: int| 0 <= i < cats.len() && #[trigger] cats[i].display_name@ == name {
                    let w = choose|i: int|
                        0 <= i < cats.len() && #[trigger] cats[i].display_name@ == name;
                    assert(w >= 1);
                    assert(cats.drop_first()[w - 1].display_name@ == name);
                }
                if exists|i: int|
                    0 <= i < cats.drop_first().len()
                        && #[trigger] cats.drop_first()[i].display_name@ == name {
                    let w = choose|i: int|
                        0 <= i < cats.drop_first().len()
                            && #[trigger] cats.drop_first()[i].display_name@ == name;
                    assert(cats[w + 1].display_name@ == name);
                }
            }
            assert forall|i: int|
                0 <= i < cats.len() && (#[trigger] cats[i].display_name@) == name && (forall|
                    j: int,
                |
                    0 <= j < i ==> #[trigger] cats[j].display_name@ != name) implies first_category_id(
                cv,
                name,
            ) == Some(cats[i].id) by {
                assert(i >= 1);
                assert(cats.drop_first()[i - 1].display_name@ == name);
                assert(forall|j: int|
                    0 <= j < i - 1 ==> #[trigger] cats.drop_first()[j].display_name@ != name);
            }
        }
    }
}

/// One row of the external format, parsed and validated.
struct ImportRow {
    payee: String,
    amount: i64,
    date: i64,
    outflow_positive: bool,
    category: String,
}

spec fn row_matches(r: ImportRow, v: RowView) -> bool {
    &&& r.payee@ == v.payee
    &&& r.amount as int == v.amount
    &&& r.date as int == v.date
    &&& r.outflow_positive == v.outflow_positive
    &&& r.category@ == v.category
}

/// Parses and validates one data row of the external format.
fn parse_row_exec(line: &str) -> (r: Result<ImportRow, String>)
    ensures
        r is Ok <==> parse_row(line@) is Ok,
        r is Ok ==> row_matches(r->Ok_0, parse_row(line@)->Ok_0),
        r is Err ==> parse_row(line@) is Err && r->Err_0@ == parse_row(line@)->Err_0,
{
    let fields = split_csv_line(line);
    proof {
        assert(fields@.map_values(|x: String| x@) == split_commas(line@));
        assert(fields@.len() == split_commas(line@).len());
    }
    if fields.len() < 6 {
        return Err("row has too few fields".to_owned());
    }
    proof {
        assert(fields@.map_values(|x: String| x@)[1] == fields@[1]@);
        assert(fields@.map_values(|x: String| x@)[2] == fields@[2]@);
        assert(fields@.map_values(|x: String| x@)[3] == fields@[3]@);
        assert(fields@.map_values(|x: String| x@)[4] == fields@[4]@);
        assert(fields@.map_values(|x: String| x@)[5] == fields@[5]@);
    }
    let date = match crate::dates::parse_date_to_unix(fields[1].as_str()) {
        Some(ts) => ts,
        None => {
            return Err("invalid date".to_owned());
        },
    };
    let outflow = parse_money_cents(fields[3].as_str());
    let inflow = parse_money_cents(fields[4].as_str());
    if inflow != 0 && outflow != 0 {
        return Err("Cannot create transaction with both inflow and outflow.".to_owned());
    }
    if inflow <= 0 && outflow <= 0 {
        return Err("Cannot create transaction with no outflow and no inflow.".to_owned());
    }
    let amount: i64 = if inflow > 0 {
        inflow
    } else {
        -outflow
    };
    Ok(
        ImportRow {
            payee: fields[2].clone(),
            amount,
            date,
            outflow_positive: outflow > 0,
            category: fields[5].clone(),
        },
    )
}

impl Database {
    /// Imports the lines of an external comma-separated file into one
    /// account: the first line is a header and is discarded, and each further
    /// line becomes one transaction, its category resolved — and created
    /// first where absent — only for outflows. The whole input is validated
    /// before anything is inserted, so a malformed line rejects the import
    /// with its 1-based line number and reason and the ledger unchanged. A
    /// storage failure mid-import keeps exactly the rows already inserted —
    /// always a whole prefix of the data rows, each with its category —
    /// partial completion, by design.
    pub fn import(&mut self, lines: &Vec<String>, account_id: i64) -> (r: Result<usize, RytError>)
        requires
            old(self).wf(),
        ensures
            final(self).wf(),
            final(self).model().accounts == old(self).model().accounts,
            final(self).model().transfers == old(self).model().transfers,
            ({
                let lv = lines@.map_values(|x: String| x@);
                let all = import_upto(
                    cat_views(old(self).model().categories),
                    tx_views(old(self).model().transactions),
                    lv,
                    1,
                    lv.len() as int,
                    account_id,
                );
                &&& (r is Ok ==> all is Ok && cat_views(final(self).model().categories)
                    == all->Ok_0.0 && tx_views(final(self).model().transactions) == all->Ok_0.1
                    && r->Ok_0 as int == final(self).model().transactions.len() - old(
                    self,
                ).model().transactions.len())
                &&& (lines@.len() <= 1 ==> r is Ok)
                &&& (match r {
                    Err(RytError::Import { line, reason }) => all is Err && line as int
                        == all->Err_0.0 && reason@ == all->Err_0.1 && final(self).model() == old(
                        self,
                    ).model(),
                    _ => true,
                })
                &&& (all is Err ==> r matches Err(RytError::Import { .. }))
                &&& (r is Err ==> (r->Err_0 matches RytError::Import { .. }) || r->Err_0
                    == RytError::Rusqlite)
                &&& ((r is Err && r->Err_0 == RytError::Rusqlite) ==> (exists|k: int|
                    {
                        &&& 1 <= k <= lv.len()
                        &&& (#[trigger] import_upto(
                            cat_views(old(self).model().categories),
                            tx_views(old(self).model().transactions),
                            lv,
                            1,
                            k,
                            account_id,
                        )) is Ok
                        &&& ({
                            let pair = import_upto(
                                cat_views(old(self).model().categories),
                                tx_views(old(self).model().transactions),
                                lv,
                                1,
                                k,
                                account_id,
                            )->Ok_0;
                            &&& cat_views(final(self).model().categories) == pair.0
                            &&& tx_views(final(self).model().transactions) == pair.1
                        })
                    }))
            }),
    {
        let ghost lv = lines@.map_values(|x: String| x@);
        let ghost cv0 = cat_views(self.model().categories);
        let ghost tv0 = tx_views(self.model().transactions);
        let mut rows: Vec<ImportRow> = Vec::new();
        let mut i: usize = 1;
        while i < lines.len()
            invariant
                *self == *old(self),
                old(self).wf(),
                lv == lines@.map_values(|x: String| x@),
                cv0 == cat_views(old(self).model().categories),
                tv0 == tx_views(old(self).model().transactions),
                1 <= i <= lines@.len() || (i == 1 && lines@.len() == 0),
                rows@.len() == i - 1 || (i == 1 && rows@.len() == 0),
                forall|k: int|
                    1 <= k < i ==> parse_row(#[trigger] lv[k]) is Ok && row_matches(
                        rows@[k - 1],
                        parse_row(lv[k])->Ok_0,
                    ),
            decreases lines@.len() - i,
        {
            proof {
                assert(lv[i as int] == lines@[i as int]@);
            }
            match parse_row_exec(lines[i].as_str()) {
                Ok(row) => {
                    rows.push(row);
                },
                Err(reason) => {
                    proof {
                        lemma_import_upto_err(
                            cv0,
                            tv0,
                            lv,
                            1,
                            i as int,
                            lv.len() as int,
                            account_id,
                        );
                    }
                    return Err(RytError::Import { line: i + 1, reason });
                },
            }
            i = i + 1;
        }
        let ghost base_len = self.model().transactions.len();
        let mut j: usize = 0;
        while j < rows.len()
            invariant
                self.wf(),
                lv == lines@.map_values(|x: String| x@),
                rows@.len() == lines@.len() - 1 || (rows@.len() == 0 && lines@.len() == 0),
                0 <= j <= rows@.len(),
                forall|k: int|
                    1 <= k < lines@.len() ==> parse_row(#[trigger] lv[k]) is Ok && row_matches(
                        rows@[k - 1],
                        parse_row(lv[k])->Ok_0,
                    ),
                cv0 == cat_views(old(self).model().categories),
                tv0 == tx_views(old(self).model().transactions),
                base_len == old(self).model().transactions.len(),
                self.model().accounts == old(self).model().accounts,
                self.model().transfers == old(self).model().transfers,
                self.model().transactions.len() == base_len + j,
                import_upto(cv0, tv0, lv, 1, j + 1, account_id) == Result::<
                    (Seq<CatView>, Seq<TxView>),
                    (int, Seq<char>),
                >::Ok((cat_views(self.model().categories), tx_views(self.model().transactions))),
            decreases rows@.len() - j,
        {
            let ghost row_v = parse_row(lv[j + 1])->Ok_0;
            let ghost cats_now = cat_views(self.model().categories);
            let ghost txs_now = tx_views(self.model().transactions);
            let ghost cats_before = self.model().categories;
            let row = &rows[j];
            let step: Result<i64, RytError> = if row.outflow_positive {
                proof {
                    lemma_first_category_id_chars(self.model().categories, row.category@);
                }
                match self.get_category_id(row.category.as_str()) {
                    Ok(cid) => {
                        proof {
                            assert(first_category_id(cats_now, row_v.category) == Some(cid));
                        }
                        let data = Transaction {
                            payee: row.payee.clone(),
                            notes: String::new(),
                            account_id,
                            category_id: cid,
                            date: row.date,
                            amount: row.amount,
                        };
                        self.insert_transaction(data)
                    },
                    Err(_) => {
                        proof {
                            assert(first_category_id(cats_now, row_v.category) is None);
                            assert(cat_view_ids(cats_now) =~= crate::database::category_ids(
                                cats_before,
                            ));
                        }
                        let data = Transaction {
                            payee: row.payee.clone(),
                            notes: String::new(),
                            account_id,
                            category_id: 0,
                            date: row.date,
                            amount: row.amount,
                        };
                        self.insert_category_with_transaction(row.category.as_str(), data)
                    },
                }
            } else {
                let data = Transaction {
                    payee: row.payee.clone(),
                    notes: String::new(),
                    account_id,
                    category_id: 0,
                    date: row.date,
                    amount: row.amount,
                };
                self.insert_transaction(data)
            };
            match step {
                Ok(_) => {},
                Err(e) => {
                    proof {
                        lemma_import_upto_ok(cv0, tv0, lv, 1, lv.len() as int, account_id);
                        assert(1 <= j as int + 1 <= lv.len());
                        assert(import_upto(cv0, tv0, lv, 1, j as int + 1, account_id) is Ok);
                    }
                    return Err(e);
                },
            }
            proof {
                lemma_import_upto_extend(cv0, tv0, lv, 1, j + 1, account_id);
                let stepped = apply_row(cats_now, txs_now, row_v, account_id);
                assert(cat_views(self.model().categories) =~= stepped.0);
                assert(tx_views(self.model().transactions) =~= stepped.1);
            }
            j = j + 1;
        }
        proof {
            if lines@.len() == 0 {
                assert(import_upto(cv0, tv0, lv, 1, lv.len() as int, account_id) is Ok);
            }
        }
        Ok(rows.len())
    }
}


/// One data line of the export: the payee, the amount as decimal dollars, the
/// date as `YYYY-MM-DD`, and the account and category display names, comma
/// separated; a dangling reference shows as the empty string.
pub open spec fn export_line_text(
    t: Transaction,
    y: int,
    m: int,
    d: int,
    accounts: Seq<Account>,
    cats: Seq<Category>,
) -> Seq<char> {
    t.payee@ + seq![','] + crate::numtext::money_text(t.amount as int) + seq![',']
        + crate::numtext::civil_text(y, m, d) + seq![','] + crate::database::account_name_or_empty(
        accounts,
        t.account_id,
    ) + seq![','] + crate::database::category_name_or_empty(cats, t.category_id)
}

/// The line renders the transaction on some valid calendar date whose day
/// count matches the transaction's timestamp.
pub open spec fn renders_line(
    line: Seq<char>,
    t: Transaction,
    accounts: Seq<Account>,
    cats: Seq<Category>,
) -> bool {
    exists|y: int, m: int, d: int|
        crate::dates::valid_date(y, m, d) && crate::dates::days_from_civil(y, m, d) == t.date
            / 86400 && line == export_line_text(t, y, m, d, accounts, cats)
}

impl Database {
    /// The export of the whole ledger: a header line, then one line per
    /// transaction in date order. Fails only where a transaction's date lies
    /// outside the representable calendar years 0 through 9999.
    pub fn export_rows(&self) -> (r: Result<Vec<String>, RytError>)
        ensures
            ({
                let sorted = crate::amounts::sort_by_date(self.model().transactions);
                &&& (r is Ok <==> (forall|i: int|
                    0 <= i < sorted.len() ==> -62167219200 <= (#[trigger] sorted[i]).date
                        <= 253402300799))
                &&& (r is Ok ==> r->Ok_0@.len() == 1 + sorted.len())
                &&& (r is Ok ==> r->Ok_0@[0]@ == "payee, amount, date, account, category"@)
                &&& (r is Ok ==> (forall|i: int|
                    0 <= i < sorted.len() ==> renders_line(
                        (#[trigger] r->Ok_0@[i + 1])@,
                        sorted[i],
                        self.model().accounts,
                        self.model().categories,
                    )))
            }),
            r is Err ==> r->Err_0 == RytError::Rusqlite,
    {
        let all = crate::database::clone_transactions(self.transactions_vec());
        let sorted = crate::database::sort_transactions_by_date(all);
        let mut out: Vec<String> = Vec::new();
        out.push("payee, amount, date, account, category".to_owned());
        let n = sorted.len();
        let mut i: usize = 0;
        let ghost mut ws: Seq<(int, int, int)> = Seq::empty();
        while i < n
            invariant
                n == sorted.len(),
                sorted@ == crate::amounts::sort_by_date(self.model().transactions),
                0 <= i <= n,
                out@.len() == i + 1,
                ws.len() == i,
                out@[0]@ == "payee, amount, date, account, category"@,
                forall|k: int|
                    0 <= k < i ==> -62167219200 <= (#[trigger] sorted@[k]).date <= 253402300799,
                forall|k: int|
                    0 <= k < i ==> {
                        let w = #[trigger] ws[k];
                        &&& crate::dates::valid_date(w.0, w.1, w.2)
                        &&& crate::dates::days_from_civil(w.0, w.1, w.2) == sorted@[k].date / 86400
                        &&& out@[k + 1]@ == export_line_text(
                            sorted@[k],
                            w.0,
                            w.1,
                            w.2,
                            self.model().accounts,
                            self.model().categories,
                        )
                    },
            decreases n - i,
        {
            let t = &sorted[i];
            if t.date < -62167219200i64 || t.date > 253402300799i64 {
                return Err(RytError::Rusqlite);
            }
            let (y, m, d) = crate::dates::unix_to_civil(t.date);
            let date_s = crate::numtext::civil_text_exec(y, m, d);
            let money_s = crate::numtext::cents_text(t.amount);
            let account_s = crate::database::resolve_account_name(self.accounts_vec(), t.account_id);
            let category_s = crate::database::resolve_category_name(self.categories_vec(), t.category_id);
            let mut line: String = t.payee.clone();
            proof {
                reveal_strlit(",");
                assert(","@ =~= seq![',']);
            }
            line.append(",");
            line.append(money_s.as_str());
            line.append(",");
            line.append(date_s.as_str());
            line.append(",");
            line.append(account_s.as_str());
            line.append(",");
            line.append(category_s.as_str());
            proof {
                assert(line@ =~= export_line_text(
                    sorted@[i as int],
                    y as int,
                    m as int,
                    d as int,
                    self.model().accounts,
                    self.model().categories,
                ));
            }
            out.push(line);
            proof {
                ws = ws.push((y as int, m as int, d as int));
            }
            i = i + 1;
        }
        proof {
            let sorted_spec = crate::amounts::sort_by_date(self.model().transactions);
            assert forall|q: int| 0 <= q < sorted_spec.len() implies renders_line(
                (#[trigger] out@[q + 1])@,
                sorted_spec[q],
                self.model().accounts,
                self.model().categories,
            ) by {
                let w = ws[q];
                assert(crate::dates::valid_date(w.0, w.1, w.2) && crate::dates::days_from_civil(
                    w.0,
                    w.1,
                    w.2,
                ) == sorted_spec[q].date / 86400 && out@[q + 1]@ == export_line_text(
                    sorted_spec[q],
                    w.0,
                    w.1,
                    w.2,
                    self.model().accounts,
                    self.model().categories,
                ));
            }
        }
        Ok(out)
    }
}

} // verus!
