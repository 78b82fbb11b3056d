//! Sample indexes and requests: the overloads that make a name ambiguous,
//! a unique name, and the positions that point at them.
use vstd::prelude::*;
use crate::codec::{serialize_keys_v1, serialize_refs, keys_v1_payload, keys_v1_decoded, bincode_references, bincode_references_decoded, StoredReference};
use crate::handler::FindImpactRequest;
use crate::resolve::ScipTables;

verus! {

/// A lookup state as the busy notice reports it.
pub fn sample_state() -> (s: String)
    ensures
        s@ == "resolving 'Ns.I.M' via the csharp SCIP helper"@,
{
    String::from_str("resolving 'Ns.I.M' via the csharp SCIP helper")
}

/// A request that names only the language, `csharp`.
pub fn find_impact_request() -> (r: FindImpactRequest)
    ensures
        r.symbol_name is None,
        r.file is None,
        r.line is None,
        r.symbol_key is None,
        r.language matches Some(l) && l@ == "csharp"@,
        r.project is None,
        r.group is None,
{
    FindImpactRequest {
        symbol_name: None,
        file: None,
        line: None,
        symbol_key: None,
        language: Some(String::from_str("csharp")),
        project: None,
        group: None,
    }
}

/// The first `add` overload.
pub open spec fn ts_add1() -> Seq<char> {
    "scip-typescript npm mypkg 1.0.0 `src/math.ts`/add()."@
}

/// The second `add` overload.
pub open spec fn ts_add2() -> Seq<char> {
    "scip-typescript npm mypkg 1.0.0 `src/math.ts`/add(`x`: number)."@
}

/// The unique `mul`.
pub open spec fn ts_mul() -> Seq<char> {
    "scip-typescript npm mypkg 1.0.0 `src/math.ts`/mul()."@
}

/// The references stored for each fixture symbol: one definition.
pub open spec fn ts_definition_refs() -> Seq<(Seq<char>, u32, u32, Seq<char>)> {
    seq![("src/math.ts"@, 1u32, 1u32, "definition"@)]
}

fn definition_payload() -> (p: Vec<u8>)
    ensures
        p@ == bincode_references(ts_definition_refs()),
        bincode_references_decoded(p@) == Some(ts_definition_refs()),
{
    let mut refs: Vec<StoredReference> = Vec::new();
    refs.push(
        StoredReference {
            file: String::from_str("src/math.ts"),
            start_line: 1,
            end_line: 1,
            kind: String::from_str("definition"),
        },
    );
    let p = serialize_refs(refs.as_slice());
    assert(crate::codec::stored_view(refs@) =~= ts_definition_refs());
    p
}

fn keys_payload2(a: &String, b: &String) -> (p: Vec<u8>)
    ensures
        p@ == keys_v1_payload(seq![a@, b@]),
        keys_v1_decoded(p@) == Some(seq![a@, b@]),
{
    let mut keys: Vec<String> = Vec::new();
    keys.push(a.clone());
    keys.push(b.clone());
    assert(crate::codec::strings_view(keys@) =~= seq![a@, b@]);
    serialize_keys_v1(keys.as_slice())
}

fn keys_payload1(a: &String) -> (p: Vec<u8>)
    ensures
        p@ == keys_v1_payload(seq![a@]),
        keys_v1_decoded(p@) == Some(seq![a@]),
{
    let mut keys: Vec<String> = Vec::new();
    keys.push(a.clone());
    assert(crate::codec::strings_view(keys@) =~= seq![a@]);
    serialize_keys_v1(keys.as_slice())
}

/// Fills an index with two `add` overloads that share a simple name and a
/// unique `mul`, each with one stored definition. The name `add` lists the
/// overloads out of order, so resolution must sort; `src/math.ts:10` holds
/// both overloads and `src/math.ts:20` holds `mul`. Returns the three
/// canonical keys.
pub fn populate_ambiguity_fixture(tables: &mut ScipTables) -> (keys: (String, String, String))
    requires
        old(tables).wf(),
    ensures
        final(tables).wf(),
        keys.0@ == ts_add1(),
        keys.1@ == ts_add2(),
        keys.2@ == ts_mul(),
        final(tables).symbols@ == old(tables).symbols@.insert(
            ts_add1(),
            final(tables).symbols@[ts_add1()],
        ).insert(ts_add2(), final(tables).symbols@[ts_add2()]).insert(
            ts_mul(),
            final(tables).symbols@[ts_mul()],
        ),
        final(tables).symbols@[ts_add1()]@ == bincode_references(ts_definition_refs()),
        final(tables).symbols@[ts_add2()]@ == bincode_references(ts_definition_refs()),
        final(tables).symbols@[ts_mul()]@ == bincode_references(ts_definition_refs()),
        final(tables).names@ == old(tables).names@.insert("add"@, final(tables).names@["add"@]).insert(
            "mul"@,
            final(tables).names@["mul"@],
        ),
        final(tables).names@["add"@]@ == keys_v1_payload(seq![ts_add2(), ts_add1()]),
        final(tables).names@["mul"@]@ == keys_v1_payload(seq![ts_mul()]),
        final(tables).positions@ == old(tables).positions@.insert(
            "src/math.ts:10"@,
            final(tables).positions@["src/math.ts:10"@],
        ).insert("src/math.ts:20"@, final(tables).positions@["src/math.ts:20"@]),
        final(tables).positions@["src/math.ts:10"@]@ == keys_v1_payload(seq![ts_add1(), ts_add2()]),
        final(tables).positions@["src/math.ts:20"@]@ == keys_v1_payload(seq![ts_mul()]),
        bincode_references_decoded(final(tables).symbols@[ts_add1()]@) == Some(ts_definition_refs()),
        bincode_references_decoded(final(tables).symbols@[ts_add2()]@) == Some(ts_definition_refs()),
        bincode_references_decoded(final(tables).symbols@[ts_mul()]@) == Some(ts_definition_refs()),
        keys_v1_decoded(final(tables).names@["add"@]@) == Some(seq![ts_add2(), ts_add1()]),
        keys_v1_decoded(final(tables).names@["mul"@]@) == Some(seq![ts_mul()]),
        keys_v1_decoded(final(tables).positions@["src/math.ts:10"@]@) == Some(seq![ts_add1(), ts_add2()]),
        keys_v1_decoded(final(tables).positions@["src/math.ts:20"@]@) == Some(seq![ts_mul()]),
        final(tables).meta@ == old(tables).meta@,
{
    let add1 = String::from_str("scip-typescript npm mypkg 1.0.0 `src/math.ts`/add().");
    let add2 = String::from_str("scip-typescript npm mypkg 1.0.0 `src/math.ts`/add(`x`: number).");
    let mul = String::from_str("scip-typescript npm mypkg 1.0.0 `src/math.ts`/mul().");

    tables.symbols.put(add1.clone(), definition_payload());
    tables.symbols.put(add2.clone(), definition_payload());
    tables.symbols.put(mul.clone(), definition_payload());

    // stored deliberately out of order
    tables.names.put(String::from_str("add"), keys_payload2(&add2, &add1));
    tables.names.put(String::from_str("mul"), keys_payload1(&mul));

    tables.positions.put(String::from_str("src/math.ts:10"), keys_payload2(&add1, &add2));
    tables.positions.put(String::from_str("src/math.ts:20"), keys_payload1(&mul));

    proof {
        reveal_strlit("add");
        reveal_strlit("mul");
        reveal_strlit("src/math.ts:10");
        reveal_strlit("src/math.ts:20");
        assert("add"@[0] != "mul"@[0]);
        assert("src/math.ts:10"@[12] != "src/math.ts:20"@[12]);
        reveal_strlit("scip-typescript npm mypkg 1.0.0 `src/math.ts`/add().");
        reveal_strlit("scip-typescript npm mypkg 1.0.0 `src/math.ts`/add(`x`: number).");
        reveal_strlit("scip-typescript npm mypkg 1.0.0 `src/math.ts`/mul().");
    }
    (add1, add2, mul)
}

/// The first `Validate` overload of the C# fixture.
pub open spec fn cs_validate1() -> Seq<char> {
    "csharp Ns . V#Validate()."@
}

/// The second `Validate` overload of the C# fixture.
pub open spec fn cs_validate2() -> Seq<char> {
    "csharp Ns . V#Validate(System.String)."@
}

/// Fills an index with two C# `Validate` overloads in the symbol table and
/// the simple name `Validate` listing both: enough for every resolution arm,
/// since only the presence of a symbol key is read.
pub fn populate_overload_fixture(tables: &mut ScipTables)
    requires
        old(tables).wf(),
    ensures
        final(tables).wf(),
        final(tables).symbols@ == old(tables).symbols@.insert(
            cs_validate1(),
            final(tables).symbols@[cs_validate1()],
        ).insert(cs_validate2(), final(tables).symbols@[cs_validate2()]),
        final(tables).symbols@[cs_validate1()]@ == seq![1u8],
        final(tables).symbols@[cs_validate2()]@ == seq![1u8],
        final(tables).names@ == old(tables).names@.insert(
            "Validate"@,
            final(tables).names@["Validate"@],
        ),
        final(tables).names@["Validate"@]@ == keys_v1_payload(seq![cs_validate1(), cs_validate2()]),
        keys_v1_decoded(final(tables).names@["Validate"@]@) == Some(seq![cs_validate1(), cs_validate2()]),
        final(tables).positions@ == old(tables).positions@,
        final(tables).meta@ == old(tables).meta@,
{
    let v1 = String::from_str("csharp Ns . V#Validate().");
    let v2 = String::from_str("csharp Ns . V#Validate(System.String).");
    let mut marker: Vec<u8> = Vec::new();
    marker.push(1u8);
    let marker2 = marker.clone();
    tables.symbols.put(v1.clone(), marker);
    tables.symbols.put(v2.clone(), marker2);
    tables.names.put(String::from_str("Validate"), keys_payload2(&v1, &v2));
    proof {
        reveal_strlit("Validate");
        reveal_strlit("csharp Ns . V#Validate().");
        reveal_strlit("csharp Ns . V#Validate(System.String).");
        assert("csharp Ns . V#Validate()."@[23] != "csharp Ns . V#Validate(System.String)."@[23]);
    }
}

} // verus!
