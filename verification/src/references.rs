//! References to a symbol, and the collapse of repeated entries.
use vstd::prelude::*;

verus! {

/// One occurrence of a symbol: the file, the line range and the kind
/// (`definition`, `reference`, ...).
#[derive(Debug, PartialEq, Eq)]
pub struct SymbolReference {
    pub file: String,
    pub start_line: u32,
    pub end_line: u32,
    pub kind: String,
}

/// What identifies a reference: its file, line range and kind.
pub type ReferenceView = (Seq<char>, u32, u32, Seq<char>);

impl View for SymbolReference {
    type V = ReferenceView;

    open spec fn view(&self) -> ReferenceView {
        (self.file@, self.start_line, self.end_line, self.kind@)
    }
}

/// The views of a sequence of references.
pub open spec fn references_view(refs: Seq<SymbolReference>) -> Seq<ReferenceView> {
    refs.map_values(|r: SymbolReference| r@)
}

/// The first occurrence of each distinct element, in the order in which
/// those first occurrences come.
pub open spec fn first_occurrences<A>(s: Seq<A>) -> Seq<A>
    decreases s.len(),
{
    if s.len() == 0 {
        Seq::empty()
    } else {
        let kept = first_occurrences(s.drop_last());
        if kept.contains(s.last()) {
            kept
        } else {
            kept.push(s.last())
        }
    }
}

/// A reference with the same file, line range and kind.
pub fn copy_reference(r: &SymbolReference) -> (c: SymbolReference)
    ensures
        c@ == r@,
{
    SymbolReference {
        file: r.file.clone(),
        start_line: r.start_line,
        end_line: r.end_line,
        kind: r.kind.clone(),
    }
}

/// Whether two references have the same file, line range and kind.
pub fn same_reference(a: &SymbolReference, b: &SymbolReference) -> (r: bool)
    ensures
        r == (a@ == b@),
{
    a.file == b.file && a.start_line == b.start_line && a.end_line == b.end_line && a.kind
        == b.kind
}

fn contains_reference(refs: &Vec<SymbolReference>, r: &SymbolReference) -> (found: bool)
    ensures
        found == references_view(refs@).contains(r@),
{
    let n = refs.len();
    for i in 0..n
        invariant
            n == refs@.len(),
            forall|j: int| 0 <= j < i ==> refs@[j]@ != r@,
    {
        if same_reference(&refs[i], r) {
            assert(references_view(refs@)[i as int] == r@);
            return true;
        }
    }
    assert forall|j: int| 0 <= j < references_view(refs@).len() implies references_view(
        refs@,
    )[j] != r@ by {
        assert(references_view(refs@)[j] == refs@[j]@);
    }
    false
}

/// Collapses references that share file, line range and kind into the first
/// of them; distinct references all stay, in the order of their first
/// occurrence.
pub fn dedupe_references(refs: Vec<SymbolReference>) -> (out: Vec<SymbolReference>)
    ensures
        references_view(out@) == first_occurrences(references_view(refs@)),
{
    let mut out: Vec<SymbolReference> = Vec::new();
    let n = refs.len();
    for i in 0..n
        invariant
            n == refs@.len(),
            references_view(out@) == first_occurrences(references_view(refs@).take(i as int)),
    {
        let ghost before = references_view(refs@).take(i as int);
        let ghost after = references_view(refs@).take(i + 1);
        assert(after.drop_last() =~= before);
        assert(after.last() == refs@[i as int]@);
        if !contains_reference(&out, &refs[i]) {
            out.push(copy_reference(&refs[i]));
            assert(references_view(out@) =~= first_occurrences(before).push(refs@[i as int]@));
        }
    }
    assert(references_view(refs@).take(n as int) =~= references_view(refs@));
    out
}

/// What `dedupe_references` keeps holds no two equal references.
pub proof fn lemma_dedupe_has_no_duplicates<A>(s: Seq<A>)
    ensures
        first_occurrences(s).no_duplicates(),
    decreases s.len(),
{
    if s.len() > 0 {
        lemma_dedupe_has_no_duplicates(s.drop_last());
    }
}

/// A reference is kept by `dedupe_references` exactly when it occurs in
/// the input: nothing distinct is lost and nothing is added.
pub proof fn lemma_dedupe_keeps_every_distinct_reference<A>(s: Seq<A>, x: A)
    ensures
        first_occurrences(s).contains(x) <==> s.contains(x),
    decreases s.len(),
{
    if s.len() > 0 {
        lemma_dedupe_keeps_every_distinct_reference(s.drop_last(), x);
        if x == s.last() {
            assert(s[s.len() - 1] == x);
        }
        if s.drop_last().contains(x) {
            let j = choose|j: int| 0 <= j < s.drop_last().len() && s.drop_last()[j] == x;
            assert(s[j] == x);
        }
        if s.contains(x) && x != s.last() {
            let j = choose|j: int| 0 <= j < s.len() && s[j] == x;
            assert(s.drop_last()[j] == x);
        }
        let kept = first_occurrences(s.drop_last());
        if !kept.contains(s.last()) {
            let pushed = kept.push(s.last());
            assert(pushed[kept.len() as int] == s.last());
            if pushed.contains(x) && x != s.last() {
                let j = choose|j: int| 0 <= j < pushed.len() && pushed[j] == x;
                assert(kept[j] == x);
            }
            if kept.contains(x) {
                let j = choose|j: int| 0 <= j < kept.len() && kept[j] == x;
                assert(pushed[j] == x);
            }
        }
    }
}

/// A sequence without repeated elements is left as it is.
pub proof fn lemma_dedupe_of_distinct_is_identity<A>(s: Seq<A>)
    requires
        s.no_duplicates(),
    ensures
        first_occurrences(s) == s,
    decreases s.len(),
{
    if s.len() > 0 {
        let init = s.drop_last();
        assert(init.no_duplicates());
        lemma_dedupe_of_distinct_is_identity(init);
        if init.contains(s.last()) {
            let j = choose|j: int| 0 <= j < init.len() && init[j] == s.last();
            assert(s[j] == s[s.len() - 1]);
        }
        assert(init.push(s.last()) =~= s);
    }
}

/// Collapsing twice gives what collapsing once gives.
pub proof fn lemma_dedupe_is_idempotent<A>(s: Seq<A>)
    ensures
        first_occurrences(first_occurrences(s)) == first_occurrences(s),
{
    lemma_dedupe_has_no_duplicates(s);
    lemma_dedupe_of_distinct_is_identity(first_occurrences(s));
}

/// Collapsing never makes the list longer.
pub proof fn lemma_dedupe_never_grows<A>(s: Seq<A>)
    ensures
        first_occurrences(s).len() <= s.len(),
    decreases s.len(),
{
    if s.len() > 0 {
        lemma_dedupe_never_grows(s.drop_last());
    }
}

} // verus!
