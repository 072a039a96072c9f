//! Codegen-unit tests: which items the compiler generated code for, and in which codegen units.
use vstd::prelude::*;
use crate::debugger::{non_empty, split_on};
use crate::text::{starts_with, str_eq, str_starts_with, string_views, trim, trimmed, substring};

verus! {

/// The prefix of the compiler's lines that report an item it generated code for.
pub const PREFIX: &'static str = "TRANS_ITEM ";

/// An item and the codegen units it went to, read from `[TRANS_ITEM ]name [@@ cgu...]`.
#[derive(Debug)]
pub struct TransItem {
    pub name: String,
    pub codegen_units: Vec<String>,
    /// The line as `TRANS_ITEM name ...`.
    pub string: String,
}

pub open spec fn trimmed_all(pieces: Seq<Seq<char>>) -> Seq<Seq<char>> {
    pieces.map_values(|p: Seq<char>| trim(p))
}

/// The text of an item line without the prefix, trimmed.
pub open spec fn item_body(s: Seq<char>) -> Seq<char> {
    if starts_with(s, PREFIX@) {
        trim(s.skip(PREFIX@.len() as int))
    } else {
        trim(s)
    }
}

/// The parts of an item line between `@@` markers, trimmed, empty ones left out.
pub open spec fn item_parts(s: Seq<char>) -> Seq<Seq<char>> {
    non_empty(trimmed_all(split_on(item_body(s), "@@"@)))
}

pub open spec fn item_name(s: Seq<char>) -> Seq<char> {
    item_parts(s)[0]
}

/// The codegen units an item line names: the words of its second part.
pub open spec fn item_cgus(s: Seq<char>) -> Set<Seq<char>> {
    if item_parts(s).len() > 1 {
        non_empty(trimmed_all(split_on(item_parts(s)[1], " "@))).to_set()
    } else {
        Set::empty()
    }
}

impl TransItem {
    pub open spec fn cgu_set(&self) -> Set<Seq<char>> {
        string_views(self.codegen_units@).to_set()
    }
}

fn trim_nonempty(v: &Vec<String>) -> (r: Vec<String>)
    ensures
        string_views(r@) == non_empty(trimmed_all(string_views(v@))),
{
    let ghost sv = string_views(v@);
    let mut r: Vec<String> = Vec::new();
    let mut i: usize = 0;
    assert(string_views(r@) =~= non_empty(trimmed_all(sv.take(0))));
    while i < v.len()
        invariant
            i <= v@.len(),
            sv == string_views(v@),
            string_views(r@) == non_empty(trimmed_all(sv.take(i as int))),
        decreases v@.len() - i,
    {
        let t = trimmed(v[i].as_str());
        let ghost before = string_views(r@);
        let ghost tv = t@;
        assert(trimmed_all(sv.take(i + 1)) =~= trimmed_all(sv.take(i as int)).push(trim(
            v@[i as int]@,
        )));
        assert(trimmed_all(sv.take(i + 1)).drop_last() =~= trimmed_all(sv.take(i as int)));
        if t.unicode_len() > 0 {
            r.push(t);
            assert(string_views(r@) =~= before.push(tv));
        }
        i = i + 1;
    }
    assert(sv.take(v@.len() as int) =~= sv);
    r
}

/// Reads an item line, with or without its prefix. The line names an item: it holds more
/// than `@@` markers and whitespace.
pub fn str_to_trans_item(s: &str) -> (r: TransItem)
    requires
        item_parts(s@).len() > 0,
    ensures
        r.name@ == item_name(s@),
        r.cgu_set() == item_cgus(s@),
        r.string@ == PREFIX@ + item_body(s@),
{
    let body = if str_starts_with(s, PREFIX) {
        proof {
            reveal_strlit("TRANS_ITEM ");
        }
        let n = s.unicode_len();
        let rest = substring(s, 11, n);
        assert(rest@ =~= s@.skip(PREFIX@.len() as int));
        trimmed(rest.as_str())
    } else {
        trimmed(s)
    };
    proof {
        reveal_strlit("@@");
        reveal_strlit(" ");
    }
    let mut full = String::from_str(PREFIX);
    full.append(body.as_str());
    let pieces = crate::debugger::split_all(body.as_str(), "@@");
    let parts = trim_nonempty(&pieces);
    assert(string_views(parts@) == item_parts(s@));
    let name = String::from_str(parts[0].as_str());
    let mut cgus: Vec<String> = Vec::new();
    if parts.len() > 1 {
        let words = crate::debugger::split_all(parts[1].as_str(), " ");
        cgus = trim_nonempty(&words);
    } else {
        assert(string_views(cgus@) =~= Seq::<Seq<char>>::empty());
    }
    TransItem { name, codegen_units: cgus, string: full }
}

} // verus!

verus! {

/// The first item of `items` from `j` on named `name`; `items.len()` if none.
pub open spec fn first_named(items: Seq<TransItem>, name: Seq<char>, j: int) -> int
    decreases items.len() - j,
{
    if j < 0 || j >= items.len() {
        items.len() as int
    } else if items[j].name@ == name {
        j
    } else {
        first_named(items, name, j + 1)
    }
}

/// An expected item is wrongly placed when it names codegen units and the actual item of
/// its name went to others.
pub open spec fn wrongly_placed(e: TransItem, a: TransItem) -> bool {
    e.codegen_units@.len() > 0 && e.cgu_set() != a.cgu_set()
}

/// Over the first `n` expected items: the ones missing from the actual items, and the pairs
/// (expected, actual) placed in other codegen units.
pub open spec fn expected_upto(exp: Seq<TransItem>, act: Seq<TransItem>, n: nat) -> (
    Seq<int>,
    Seq<(int, int)>,
)
    decreases n,
{
    if n == 0 {
        (Seq::empty(), Seq::empty())
    } else {
        let (missing, wrong) = expected_upto(exp, act, (n - 1) as nat);
        let i = n - 1;
        let j = first_named(act, exp[i].name@, 0);
        if j >= act.len() {
            (missing.push(i), wrong)
        } else if wrongly_placed(exp[i], act[j]) {
            (missing, wrong.push((i, j)))
        } else {
            (missing, wrong)
        }
    }
}

/// The actual items among the first `n` whose name no expected item has.
pub open spec fn unexpected_upto(exp: Seq<TransItem>, act: Seq<TransItem>, n: nat) -> Seq<int>
    decreases n,
{
    if n == 0 {
        Seq::empty()
    } else {
        let u = unexpected_upto(exp, act, (n - 1) as nat);
        if first_named(exp, act[n - 1].name@, 0) >= exp.len() {
            u.push(n - 1)
        } else {
            u
        }
    }
}

/// What differs between expected and actual items, as indices.
#[derive(Debug)]
pub struct CodegenReport {
    pub missing: Vec<usize>,
    pub wrong_cgus: Vec<(usize, usize)>,
    pub unexpected: Vec<usize>,
}

fn find_named(items: &Vec<TransItem>, name: &String) -> (r: usize)
    ensures
        r as int == first_named(items@, name@, 0),
{
    let mut j: usize = 0;
    while j < items.len()
        invariant
            j <= items@.len(),
            first_named(items@, name@, 0) == first_named(items@, name@, j as int),
        decreases items@.len() - j,
    {
        if str_eq(items[j].name.as_str(), name.as_str()) {
            return j;
        }
        j = j + 1;
    }
    j
}

fn contains_string(v: &Vec<String>, s: &String) -> (r: bool)
    ensures
        r == string_views(v@).contains(s@),
{
    let mut i: usize = 0;
    while i < v.len()
        invariant
            i <= v@.len(),
            forall|k: int| 0 <= k < i ==> string_views(v@)[k] != s@,
        decreases v@.len() - i,
    {
        if str_eq(v[i].as_str(), s.as_str()) {
            assert(string_views(v@)[i as int] == s@);
            return true;
        }
        i = i + 1;
    }
    false
}

fn all_in(a: &Vec<String>, b: &Vec<String>) -> (r: bool)
    ensures
        r == string_views(a@).to_set().subset_of(string_views(b@).to_set()),
{
    let ghost av = string_views(a@);
    let ghost bv = string_views(b@);
    let mut i: usize = 0;
    while i < a.len()
        invariant
            i <= a@.len(),
            av == string_views(a@),
            bv == string_views(b@),
            forall|k: int| 0 <= k < i ==> bv.contains(#[trigger] av[k]),
        decreases a@.len() - i,
    {
        if !contains_string(b, &a[i]) {
            assert(av[i as int] == a@[i as int]@);
            assert(av.to_set().contains(av[i as int]));
            return false;
        }
        assert(av[i as int] == a@[i as int]@);
        i = i + 1;
    }
    assert forall|x: Seq<char>| av.to_set().contains(x) implies bv.to_set().contains(x) by {
        let k = choose|k: int| 0 <= k < av.len() && av[k] == x;
        assert(bv.contains(av[k]));
    }
    true
}

fn same_units(e: &TransItem, a: &TransItem) -> (r: bool)
    ensures
        r == (e.cgu_set() == a.cgu_set()),
{
    let x = all_in(&e.codegen_units, &a.codegen_units);
    let y = all_in(&a.codegen_units, &e.codegen_units);
    proof {
        if x && y {
            assert(e.cgu_set() =~= a.cgu_set());
        }
    }
    x && y
}

/// Compares the items a codegen-units test expects with the ones the compiler reported:
/// expected items that are missing, expected items placed in other codegen units than
/// named, and items that no expected item names.
pub fn compare_trans_items(expected: &Vec<TransItem>, actual: &Vec<TransItem>) -> (r: CodegenReport)
    ensures
        r.missing@.map_values(|i: usize| i as int) == expected_upto(
            expected@,
            actual@,
            expected@.len(),
        ).0,
        r.wrong_cgus@.map_values(|p: (usize, usize)| (p.0 as int, p.1 as int)) == expected_upto(
            expected@,
            actual@,
            expected@.len(),
        ).1,
        r.unexpected@.map_values(|i: usize| i as int) == unexpected_upto(
            expected@,
            actual@,
            actual@.len(),
        ),
{
    let mut missing: Vec<usize> = Vec::new();
    let mut wrong_cgus: Vec<(usize, usize)> = Vec::new();
    let mut i: usize = 0;
    assert(missing@.map_values(|i: usize| i as int) =~= Seq::<int>::empty());
    assert(wrong_cgus@.map_values(|p: (usize, usize)| (p.0 as int, p.1 as int)) =~= Seq::<
        (int, int),
    >::empty());
    while i < expected.len()
        invariant
            i <= expected@.len(),
            missing@.map_values(|i: usize| i as int) == expected_upto(
                expected@,
                actual@,
                i as nat,
            ).0,
            wrong_cgus@.map_values(|p: (usize, usize)| (p.0 as int, p.1 as int)) == expected_upto(
                expected@,
                actual@,
                i as nat,
            ).1,
        decreases expected@.len() - i,
    {
        let j = find_named(actual, &expected[i].name);
        let ghost m0 = missing@;
        let ghost w0 = wrong_cgus@;
        if j >= actual.len() {
            missing.push(i);
            assert(missing@.map_values(|i: usize| i as int) =~= m0.map_values(|i: usize| i as int).push(
                i as int,
            ));
        } else if expected[i].codegen_units.len() > 0 && !same_units(&expected[i], &actual[j]) {
            wrong_cgus.push((i, j));
            assert(wrong_cgus@.map_values(|p: (usize, usize)| (p.0 as int, p.1 as int))
                =~= w0.map_values(|p: (usize, usize)| (p.0 as int, p.1 as int)).push(
                (i as int, j as int),
            ));
        }
        i = i + 1;
    }
    let mut unexpected: Vec<usize> = Vec::new();
    let mut k: usize = 0;
    assert(unexpected@.map_values(|i: usize| i as int) =~= Seq::<int>::empty());
    while k < actual.len()
        invariant
            k <= actual@.len(),
            unexpected@.map_values(|i: usize| i as int) == unexpected_upto(
                expected@,
                actual@,
                k as nat,
            ),
        decreases actual@.len() - k,
    {
        let ghost u0 = unexpected@;
        if find_named(expected, &actual[k].name) >= expected.len() {
            unexpected.push(k);
            assert(unexpected@.map_values(|i: usize| i as int) =~= u0.map_values(
                |i: usize| i as int,
            ).push(k as int));
        }
        k = k + 1;
    }
    CodegenReport { missing, wrong_cgus, unexpected }
}

} // verus!

verus! {

/// Whether `s` names an item, as `str_to_trans_item` requires.
pub fn item_line_ok(s: &str) -> (r: bool)
    ensures
        r == (item_parts(s@).len() > 0),
{
    proof {
        reveal_strlit("TRANS_ITEM ");
        reveal_strlit("@@");
    }
    let body = if str_starts_with(s, PREFIX) {
        let n = s.unicode_len();
        let rest = substring(s, 11, n);
        assert(rest@ =~= s@.skip(PREFIX@.len() as int));
        trimmed(rest.as_str())
    } else {
        trimmed(s)
    };
    let pieces = crate::debugger::split_all(body.as_str(), "@@");
    let parts = trim_nonempty(&pieces);
    parts.len() > 0
}

} // verus!
