//! How a `find_impact` query resolves against the symbol index: an exact
//! canonical key is taken verbatim, a simple name or a file position
//! resolves to the keys stored for it, and several keys are an ambiguity
//! that is answered with the sorted candidates, never with a silent pick.
use vstd::prelude::*;
use crate::text::{char_lt, decimal, push_decimal, string_less, string_push, copy_string};
use crate::text::{lemma_char_lt_irreflexive, lemma_char_lt_transitive, lemma_char_lt_total};
use crate::text::{lemma_char_lt_proper_prefix, lemma_decimal_is_base_ten, lemma_decimal_injective};
use crate::tables::Table;
use crate::codec::{strings_view, keys_v1_decoded, deserialize_keys_v1, deserialize_refs};
use crate::codec::bincode_references_decoded;
use crate::references::{SymbolReference, references_view};

verus! {

/// The tables of a SCIP symbol index.
pub struct ScipTables {
    /// Canonical symbol key to the stored references of the symbol.
    pub symbols: Table<Vec<u8>>,
    /// Simple name to the key list payload of the symbols of that name.
    pub names: Table<Vec<u8>>,
    /// `file:line` to the key list payload of the symbols defined there.
    pub positions: Table<Vec<u8>>,
    /// Index-wide entries, such as the warnings of the last rebuild.
    pub meta: Table<String>,
}

impl ScipTables {
    /// Every table holds each key once.
    pub open spec fn wf(&self) -> bool {
        &&& self.symbols.wf()
        &&& self.names.wf()
        &&& self.positions.wf()
        &&& self.meta.wf()
    }

    /// An index with no entries.
    pub fn new() -> (t: Self)
        ensures
            t.wf(),
            t.symbols@ == Map::<Seq<char>, Vec<u8>>::empty(),
            t.names@ == Map::<Seq<char>, Vec<u8>>::empty(),
            t.positions@ == Map::<Seq<char>, Vec<u8>>::empty(),
            t.meta@ == Map::<Seq<char>, String>::empty(),
    {
        ScipTables {
            symbols: Table::new(),
            names: Table::new(),
            positions: Table::new(),
            meta: Table::new(),
        }
    }
}

/// What a caller asks about.
#[derive(Debug, PartialEq, Eq)]
pub enum ImpactQuery {
    /// A simple name, which may match several symbols.
    Name(String),
    /// A canonical symbol key, taken verbatim.
    ExactKey(String),
    /// The symbol defined at a line of a file.
    Position { file: String, line: u32 },
}

/// The outcome of resolving a query to canonical keys.
#[derive(Debug, PartialEq, Eq)]
pub enum KeyMatch {
    Resolved(String),
    Ambiguous(Vec<String>),
    NotFound,
}

/// What a key match says, by the characters of its keys.
pub enum KeyMatchView {
    Resolved(Seq<char>),
    Ambiguous(Seq<Seq<char>>),
    NotFound,
}

impl View for KeyMatch {
    type V = KeyMatchView;

    open spec fn view(&self) -> KeyMatchView {
        match self {
            KeyMatch::Resolved(k) => KeyMatchView::Resolved(k@),
            KeyMatch::Ambiguous(v) => KeyMatchView::Ambiguous(strings_view(v@)),
            KeyMatch::NotFound => KeyMatchView::NotFound,
        }
    }
}

/// Why the index could not answer.
#[derive(Debug, PartialEq, Eq)]
pub enum IndexError {
    /// A key list payload is not in the stored format.
    UnreadableKeys,
    /// A reference payload is not in the stored format.
    UnreadableReferences,
}

/// Each key comes strictly before the next in code-point order.
pub open spec fn strictly_sorted(s: Seq<Seq<char>>) -> bool {
    forall|i: int, j: int| 0 <= i < j < s.len() ==> char_lt(s[i], s[j])
}

/// Both lists hold the same keys, whatever the order or repetition.
pub open spec fn same_keys(a: Seq<Seq<char>>, b: Seq<Seq<char>>) -> bool {
    forall|x: Seq<char>| a.contains(x) <==> b.contains(x)
}

/// `m` is the answer for the candidate keys `cands`: no candidate is not
/// found, one distinct candidate is resolved, several are ambiguous and
/// listed once each in sorted order.
pub open spec fn match_for(m: KeyMatch, cands: Seq<Seq<char>>) -> bool {
    match m {
        KeyMatch::NotFound => cands.len() == 0,
        KeyMatch::Resolved(k) => cands.len() > 0 && forall|i: int|
            0 <= i < cands.len() ==> cands[i] == k@,
        KeyMatch::Ambiguous(v) => {
            &&& v@.len() >= 2
            &&& strictly_sorted(strings_view(v@))
            &&& same_keys(strings_view(v@), cands)
        },
    }
}

/// The key under which a file position is stored: `file:line`.
pub open spec fn position_key(file: Seq<char>, line: u32) -> Seq<char> {
    file + seq![':'] + decimal(line as nat)
}

/// The candidates stored under `key`: none where the key is absent, the
/// decoded key list where it is present, `None` where it cannot be read.
pub open spec fn stored_candidates(table: Map<Seq<char>, Vec<u8>>, key: Seq<char>) -> Option<
    Seq<Seq<char>>,
> {
    if table.contains_key(key) {
        keys_v1_decoded(table[key]@)
    } else {
        Some(Seq::empty())
    }
}

/// What a query resolves to in the given tables, as a condition on the
/// result.
pub open spec fn resolves_to(
    symbols: Map<Seq<char>, Vec<u8>>,
    names: Map<Seq<char>, Vec<u8>>,
    positions: Map<Seq<char>, Vec<u8>>,
    q: ImpactQuery,
    r: Result<KeyMatch, IndexError>,
) -> bool {
    match q {
        ImpactQuery::ExactKey(k) => if symbols.contains_key(k@) {
            r matches Ok(KeyMatch::Resolved(x)) && x@ == k@
        } else {
            r == Ok::<KeyMatch, IndexError>(KeyMatch::NotFound)
        },
        ImpactQuery::Name(n) => match stored_candidates(names, n@) {
            Some(c) => r matches Ok(m) && match_for(m, c),
            None => r == Err::<KeyMatch, IndexError>(IndexError::UnreadableKeys),
        },
        ImpactQuery::Position { file, line } => match stored_candidates(
            positions,
            position_key(file@, line),
        ) {
            Some(c) => r matches Ok(m) && match_for(m, c),
            None => r == Err::<KeyMatch, IndexError>(IndexError::UnreadableKeys),
        },
    }
}

/// Builds the key under which a file position is stored.
pub fn make_position_key(file: &String, line: u32) -> (k: String)
    ensures
        k@ == position_key(file@, line),
{
    let mut k = copy_string(file);
    string_push(&mut k, ':');
    push_decimal(&mut k, line as u64);
    k
}

/// The distinct keys of `keys`, in strictly increasing code-point order.
pub fn sorted_distinct_keys(keys: &Vec<String>) -> (out: Vec<String>)
    ensures
        strictly_sorted(strings_view(out@)),
        same_keys(strings_view(out@), strings_view(keys@)),
{
    let mut out: Vec<String> = Vec::new();
    let n = keys.len();
    for i in 0..n
        invariant
            n == keys@.len(),
            strictly_sorted(strings_view(out@)),
            same_keys(strings_view(out@), strings_view(keys@).take(i as int)),
    {
        let k = &keys[i];
        let ghost kv = k@;
        let ghost prev = strings_view(out@);
        let ghost before = strings_view(keys@).take(i as int);
        let ghost after = strings_view(keys@).take(i + 1);
        assert(after =~= before.push(kv));
        // the first position whose key does not come before `k`
        let mut p: usize = 0;
        while p < out.len()
            invariant
                p <= out@.len(),
                prev == strings_view(out@),
                kv == k@,
                forall|j: int| 0 <= j < p ==> char_lt(prev[j], kv),
            ensures
                p <= out@.len(),
                forall|j: int| 0 <= j < p ==> char_lt(prev[j], kv),
                p < out@.len() ==> !char_lt(prev[p as int], kv),
            decreases out@.len() - p,
        {
            let before_k = string_less(&out[p], k);
            assert(prev[p as int] == out@[p as int]@);
            if !before_k {
                break;
            }
            p = p + 1;
        }
        let present = p < out.len() && out[p] == *k;
        proof {
            if p < prev.len() {
                assert(prev[p as int] == out@[p as int]@);
            }
        }
        if !present {
            proof {
                if p < prev.len() {
                    lemma_char_lt_total(prev[p as int], kv);
                    assert(char_lt(kv, prev[p as int]));
                }
                assert forall|j: int| p <= j < prev.len() implies char_lt(kv, prev[j]) by {
                    if j > p {
                        lemma_char_lt_transitive(kv, prev[p as int], prev[j]);
                    }
                }
            }
            out.insert(p, copy_string(k));
            let ghost now = strings_view(out@);
            assert(now =~= prev.insert(p as int, kv));
            assert forall|a: int, b: int| 0 <= a < b < now.len() implies char_lt(now[a], now[b]) by {
                if b < p {
                } else if a < p && b == p {
                } else if a < p && b > p {
                    lemma_char_lt_transitive(prev[a], kv, prev[b - 1]);
                } else if a == p {
                } else {
                }
            }
            assert forall|x: Seq<char>| now.contains(x) <==> after.contains(x) by {
                assert(now[p as int] == kv);
                assert(after[i as int] == kv);
                if now.contains(x) {
                    let j = choose|j: int| 0 <= j < now.len() && now[j] == x;
                    if j < p {
                        assert(prev[j] == x);
                        assert(prev.contains(x));
                    } else if j > p {
                        assert(prev[j - 1] == x);
                        assert(prev.contains(x));
                    }
                }
                if prev.contains(x) {
                    let j = choose|j: int| 0 <= j < prev.len() && prev[j] == x;
                    if j < p {
                        assert(now[j] == x);
                    } else {
                        assert(now[j + 1] == x);
                    }
                }
                if after.contains(x) {
                    let j = choose|j: int| 0 <= j < after.len() && after[j] == x;
                    if j < i {
                        assert(before[j] == x);
                        assert(before.contains(x));
                    }
                }
                if before.contains(x) {
                    let j = choose|j: int| 0 <= j < before.len() && before[j] == x;
                    assert(after[j] == x);
                }
            }
        } else {
            assert(prev[p as int] == kv);
            assert forall|x: Seq<char>| prev.contains(x) <==> after.contains(x) by {
                assert(after[i as int] == kv);
                if after.contains(x) {
                    let j = choose|j: int| 0 <= j < after.len() && after[j] == x;
                    if j < i {
                        assert(before[j] == x);
                        assert(before.contains(x));
                    }
                }
                if before.contains(x) {
                    let j = choose|j: int| 0 <= j < before.len() && before[j] == x;
                    assert(after[j] == x);
                }
            }
        }
    }
    assert(strings_view(keys@).take(n as int) =~= strings_view(keys@));
    out
}

/// The answer for a list of candidate keys: not found, resolved, or
/// ambiguous with the candidates sorted and listed once each.
pub fn match_candidates(keys: &Vec<String>) -> (m: KeyMatch)
    ensures
        match_for(m, strings_view(keys@)),
{
    let sorted = sorted_distinct_keys(keys);
    let ghost sv = strings_view(sorted@);
    let ghost kv = strings_view(keys@);
    if sorted.len() == 0 {
        proof {
            if kv.len() > 0 {
                assert(kv.contains(kv[0]));
            }
        }
        KeyMatch::NotFound
    } else if sorted.len() == 1 {
        let only = copy_string(&sorted[0]);
        assert(sv.contains(sv[0]));
        assert forall|i: int| 0 <= i < kv.len() implies kv[i] == only@ by {
            assert(kv.contains(kv[i]));
        }
        KeyMatch::Resolved(only)
    } else {
        KeyMatch::Ambiguous(sorted)
    }
}

/// The symbol index adapter for TypeScript (scip-typescript).
pub struct TypeScriptSymbolIndexer {}

impl TypeScriptSymbolIndexer {
    pub fn new() -> Self {
        TypeScriptSymbolIndexer {  }
    }

    fn resolve_stored(table: &Table<Vec<u8>>, key: &String) -> (r: Result<KeyMatch, IndexError>)
        requires
            table.wf(),
        ensures
            match stored_candidates(table@, key@) {
                Some(c) => r matches Ok(m) && match_for(m, c),
                None => r == Err::<KeyMatch, IndexError>(IndexError::UnreadableKeys),
            },
    {
        match table.get(key) {
            None => Ok(KeyMatch::NotFound),
            Some(payload) => match deserialize_keys_v1(payload.as_slice()) {
                Some(keys) => Ok(match_candidates(&keys)),
                None => Err(IndexError::UnreadableKeys),
            },
        }
    }

    /// Resolves a query to canonical keys: an exact key verbatim (a key that
    /// is only a prefix of a stored one misses), a name or a position to the
    /// keys stored for it.
    pub fn resolve_query(&self, tables: &ScipTables, query: &ImpactQuery) -> (r: Result<
        KeyMatch,
        IndexError,
    >)
        requires
            tables.wf(),
        ensures
            resolves_to(tables.symbols@, tables.names@, tables.positions@, *query, r),
    {
        match query {
            ImpactQuery::ExactKey(k) => {
                if tables.symbols.contains_key(k) {
                    Ok(KeyMatch::Resolved(copy_string(k)))
                } else {
                    Ok(KeyMatch::NotFound)
                }
            },
            ImpactQuery::Name(n) => Self::resolve_stored(&tables.names, n),
            ImpactQuery::Position { file, line } => {
                let key = make_position_key(file, *line);
                Self::resolve_stored(&tables.positions, &key)
            },
        }
    }

    /// The stored references of a canonical key; none where the key is not
    /// in the index.
    pub fn find_references_for_key(&self, tables: &ScipTables, key: &String) -> (r: Result<
        Vec<SymbolReference>,
        IndexError,
    >)
        requires
            tables.wf(),
        ensures
            !tables.symbols@.contains_key(key@) ==> (r matches Ok(v) && v@.len() == 0),
            tables.symbols@.contains_key(key@) ==> match bincode_references_decoded(
                tables.symbols@[key@]@,
            ) {
                Some(refs) => r matches Ok(v) && references_view(v@) == refs,
                None => r == Err::<Vec<SymbolReference>, IndexError>(
                    IndexError::UnreadableReferences,
                ),
            },
    {
        match tables.symbols.get(key) {
            None => Ok(Vec::new()),
            Some(payload) => match deserialize_refs(payload.as_slice()) {
                Some(refs) => Ok(refs),
                None => Err(IndexError::UnreadableReferences),
            },
        }
    }
}

/// Two keys that are ordered are distinct: an ambiguity never lists a key twice.
pub proof fn lemma_sorted_keys_are_distinct(s: Seq<Seq<char>>)
    requires
        strictly_sorted(s),
    ensures
        s.no_duplicates(),
{
    assert forall|i: int, j: int| 0 <= i < s.len() && 0 <= j < s.len() && i != j implies s[i]
        != s[j] by {
        if i < j {
            lemma_char_lt_irreflexive(s[i]);
        } else {
            lemma_char_lt_irreflexive(s[j]);
        }
    }
}

/// Two strictly sorted lists of the same keys are the same list.
pub proof fn lemma_sorted_keys_unique(a: Seq<Seq<char>>, b: Seq<Seq<char>>)
    requires
        strictly_sorted(a),
        strictly_sorted(b),
        same_keys(a, b),
    ensures
        a == b,
    decreases a.len(),
{
    if a.len() == 0 {
        if b.len() > 0 {
            assert(b.contains(b[0]));
        }
        assert(a =~= b);
    } else {
        assert(a.contains(a[0]));
        assert(b.contains(a[0]));
        let j = choose|j: int| 0 <= j < b.len() && b[j] == a[0];
        assert(b.contains(b[0]));
        assert(a.contains(b[0]));
        let i = choose|i: int| 0 <= i < a.len() && a[i] == b[0];
        if j > 0 {
            assert(char_lt(b[0], a[0]));
            if i > 0 {
                assert(char_lt(a[0], b[0]));
                lemma_char_lt_transitive(a[0], b[0], a[0]);
                lemma_char_lt_irreflexive(a[0]);
            } else {
                lemma_char_lt_irreflexive(a[0]);
            }
        }
        assert(a[0] == b[0]);
        let a1 = a.drop_first();
        let b1 = b.drop_first();
        assert forall|x: Seq<char>| a1.contains(x) <==> b1.contains(x) by {
            if a1.contains(x) {
                let k = choose|k: int| 0 <= k < a1.len() && a1[k] == x;
                assert(a[k + 1] == x);
                assert(char_lt(a[0], x));
                lemma_char_lt_irreflexive(x);
                assert(b.contains(x));
                let l = choose|l: int| 0 <= l < b.len() && b[l] == x;
                assert(l != 0);
                assert(b1[l - 1] == x);
            }
            if b1.contains(x) {
                let k = choose|k: int| 0 <= k < b1.len() && b1[k] == x;
                assert(b[k + 1] == x);
                assert(char_lt(b[0], x));
                lemma_char_lt_irreflexive(x);
                assert(a.contains(x));
                let l = choose|l: int| 0 <= l < a.len() && a[l] == x;
                assert(l != 0);
                assert(a1[l - 1] == x);
            }
        }
        lemma_sorted_keys_unique(a1, b1);
        assert(a =~= seq![a[0]] + a1);
        assert(b =~= seq![b[0]] + b1);
    }
}

/// Resolution does not depend on how the stored keys are ordered or
/// repeated: answers for lists that hold the same keys are the same answer.
pub proof fn lemma_match_ignores_order(
    m1: KeyMatch,
    c1: Seq<Seq<char>>,
    m2: KeyMatch,
    c2: Seq<Seq<char>>,
)
    requires
        match_for(m1, c1),
        match_for(m2, c2),
        same_keys(c1, c2),
    ensures
        m1@ == m2@,
{
    match (m1, m2) {
        (KeyMatch::NotFound, KeyMatch::NotFound) => {},
        (KeyMatch::NotFound, KeyMatch::Resolved(_)) => {
            assert(c2.contains(c2[0]));
        },
        (KeyMatch::Resolved(_), KeyMatch::NotFound) => {
            assert(c1.contains(c1[0]));
        },
        (KeyMatch::NotFound, KeyMatch::Ambiguous(v)) => {
            let vv = strings_view(v@);
            assert(vv.contains(vv[0]));
            assert(c2.contains(vv[0]));
        },
        (KeyMatch::Ambiguous(v), KeyMatch::NotFound) => {
            let vv = strings_view(v@);
            assert(vv.contains(vv[0]));
            assert(c1.contains(vv[0]));
        },
        (KeyMatch::Resolved(k1), KeyMatch::Resolved(k2)) => {
            assert(c1.contains(c1[0]));
            let j = choose|j: int| 0 <= j < c2.len() && c2[j] == c1[0];
        },
        (KeyMatch::Resolved(k1), KeyMatch::Ambiguous(v)) => {
            let vv = strings_view(v@);
            assert(vv.contains(vv[0]));
            assert(vv.contains(vv[1]));
            let i = choose|i: int| 0 <= i < c1.len() && c1[i] == vv[0];
            let j = choose|j: int| 0 <= j < c1.len() && c1[j] == vv[1];
            assert(char_lt(vv[0], vv[1]));
            lemma_char_lt_irreflexive(vv[0]);
        },
        (KeyMatch::Ambiguous(v), KeyMatch::Resolved(k2)) => {
            let vv = strings_view(v@);
            assert(vv.contains(vv[0]));
            assert(vv.contains(vv[1]));
            let i = choose|i: int| 0 <= i < c2.len() && c2[i] == vv[0];
            let j = choose|j: int| 0 <= j < c2.len() && c2[j] == vv[1];
            assert(char_lt(vv[0], vv[1]));
            lemma_char_lt_irreflexive(vv[0]);
        },
        (KeyMatch::Ambiguous(v1), KeyMatch::Ambiguous(v2)) => {
            lemma_sorted_keys_unique(strings_view(v1@), strings_view(v2@));
        },
    }
}

/// Keys stored under a name with `serialize_keys_v1` are what resolving that
/// name gives back: not found when there are none, resolved when they are
/// one key, ambiguous with each key once, sorted, when there are several.
pub proof fn lemma_resolve_reads_back_stored_keys(
    symbols: Map<Seq<char>, Vec<u8>>,
    names: Map<Seq<char>, Vec<u8>>,
    positions: Map<Seq<char>, Vec<u8>>,
    name: String,
    keys: Seq<Seq<char>>,
    payload: Vec<u8>,
    r: Result<KeyMatch, IndexError>,
)
    requires
        keys_v1_decoded(payload@) == Some(keys),
        resolves_to(symbols, names.insert(name@, payload), positions, ImpactQuery::Name(name), r),
    ensures
        r matches Ok(m) && match_for(m, keys),
{
}

/// A canonical key put in the symbol table resolves to itself when asked
/// for exactly; a key that is absent, a prefix of a stored key among them,
/// is not found.
pub proof fn lemma_exact_key_is_verbatim(
    symbols: Map<Seq<char>, Vec<u8>>,
    names: Map<Seq<char>, Vec<u8>>,
    positions: Map<Seq<char>, Vec<u8>>,
    key: String,
    r: Result<KeyMatch, IndexError>,
)
    requires
        resolves_to(symbols, names, positions, ImpactQuery::ExactKey(key), r),
    ensures
        symbols.contains_key(key@) ==> (r matches Ok(m) && m@ == KeyMatchView::Resolved(key@)),
        !symbols.contains_key(key@) ==> (r matches Ok(m) && m@ == KeyMatchView::NotFound),
{
}

/// The key of a position begins with the file exactly as given, character
/// for character (no case folding or other rewriting), then `:`, then the
/// line in decimal digits, which read back as the line.
pub proof fn lemma_position_key_layout(file: Seq<char>, line: u32)
    ensures
        position_key(file, line).take(file.len() as int) == file,
        position_key(file, line)[file.len() as int] == ':',
        crate::budget::digits_value(position_key(file, line).skip(file.len() as int + 1)) == line,
        forall|i: int|
            file.len() < i < position_key(file, line).len() ==> crate::budget::is_digit(
                #[trigger] position_key(file, line)[i],
            ),
{
    let k = position_key(file, line);
    let d = decimal(line as nat);
    lemma_decimal_is_base_ten(line as nat);
    assert(k.take(file.len() as int) =~= file);
    assert(k.skip(file.len() as int + 1) =~= d);
    assert forall|i: int| file.len() < i < k.len() implies crate::budget::is_digit(#[trigger] k[i]) by {
        assert(k[i] == d[i - file.len() - 1]);
    }
}

/// Two positions share a key only when they are the same file and line:
/// lookups for different files, or different lines, never meet.
pub proof fn lemma_position_key_injective(f1: Seq<char>, l1: u32, f2: Seq<char>, l2: u32)
    requires
        position_key(f1, l1) == position_key(f2, l2),
    ensures
        f1 == f2,
        l1 == l2,
{
    let k = position_key(f1, l1);
    lemma_position_key_layout(f1, l1);
    lemma_position_key_layout(f2, l2);
    if f1.len() < f2.len() {
        assert(k[f2.len() as int] == ':');
        assert(crate::budget::is_digit(k[f2.len() as int]));
    } else if f2.len() < f1.len() {
        assert(k[f1.len() as int] == ':');
        assert(crate::budget::is_digit(k[f1.len() as int]));
    }
    assert(f1.len() == f2.len());
    assert(decimal(l1 as nat) =~= k.skip(f1.len() as int + 1));
    assert(decimal(l2 as nat) =~= position_key(f2, l2).skip(f2.len() as int + 1));
    lemma_decimal_injective(l1 as nat, l2 as nat);
}

/// Among ambiguous candidates, a key is listed before every key that it is a
/// proper prefix of, as `str` orders them.
pub proof fn lemma_ambiguity_lists_prefixes_first(m: KeyMatch, cands: Seq<Seq<char>>, i: int, j: int)
    requires
        match_for(m, cands),
        m is Ambiguous,
        0 <= i < strings_view(m->Ambiguous_0@).len(),
        0 <= j < strings_view(m->Ambiguous_0@).len(),
        strings_view(m->Ambiguous_0@)[i].len() < strings_view(m->Ambiguous_0@)[j].len(),
        strings_view(m->Ambiguous_0@)[j].take(strings_view(m->Ambiguous_0@)[i].len() as int)
            == strings_view(m->Ambiguous_0@)[i],
    ensures
        i < j,
{
    let v = strings_view(m->Ambiguous_0@);
    lemma_char_lt_proper_prefix(v[i], v[j]);
    if j < i {
        crate::text::lemma_char_lt_asymmetric(v[j], v[i]);
    } else if i == j {
        lemma_char_lt_irreflexive(v[i]);
    }
}

} // verus!
