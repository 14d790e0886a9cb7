//! Emission of instantiation code for literal settings blocks: a parsed
//! key-value block becomes the text of a struct expression that builds the
//! property bag at runtime.

use vstd::prelude::*;
use vstd::string::StrSliceExecFns;
use vstd::string::StringExecFns;

use crate::identifiers::replace_all;
use crate::identifiers::replace_seq;
use crate::manifest::HostCrateInfo;
use crate::manifest::LiteralBlockDefinition;
use crate::manifest::PropertyDefinition;
use crate::manifest::TypeDefinition;
use crate::manifest::ValueDefinition;
use crate::text::str_eq;

verus! {

/// The decimal digit character for one digit value.
pub open spec fn dec_digit(d: nat) -> char {
    if d == 0 {
        '0'
    } else if d == 1 {
        '1'
    } else if d == 2 {
        '2'
    } else if d == 3 {
        '3'
    } else if d == 4 {
        '4'
    } else if d == 5 {
        '5'
    } else if d == 6 {
        '6'
    } else if d == 7 {
        '7'
    } else if d == 8 {
        '8'
    } else {
        '9'
    }
}

/// The decimal representation of a number, most significant digit first.
pub open spec fn dec_seq(n: nat) -> Seq<char>
    decreases n,
{
    if n < 10 {
        seq![dec_digit(n)]
    } else {
        dec_seq(n / 10).push(dec_digit(n % 10))
    }
}

/// Renders a number in decimal.
pub fn usize_to_decimal(n: usize) -> (r: String)
    ensures
        r@ == dec_seq(n as nat),
    decreases n,
{
    let d = n % 10;
    let c: char = if d == 0 {
        '0'
    } else if d == 1 {
        '1'
    } else if d == 2 {
        '2'
    } else if d == 3 {
        '3'
    } else if d == 4 {
        '4'
    } else if d == 5 {
        '5'
    } else if d == 6 {
        '6'
    } else if d == 7 {
        '7'
    } else if d == 8 {
        '8'
    } else {
        '9'
    };
    assert(c == dec_digit((n % 10) as nat));
    if n < 10 {
        let mut r = String::new();
        r.push(c);
        proof {
            assert(r@ =~= seq![dec_digit(n as nat)]);
        }
        r
    } else {
        let mut r = usize_to_decimal(n / 10);
        r.push(c);
        r
    }
}

/// The first property definition named `name`, scanning in declared order.
pub open spec fn pd_lookup(pds: Seq<PropertyDefinition>, name: Seq<char>) -> Option<
    PropertyDefinition,
>
    decreases pds.len(),
{
    if pds.len() == 0 {
        None
    } else if pds[0].name@ == name {
        Some(pds[0])
    } else {
        pd_lookup(pds.skip(1), name)
    }
}

proof fn lemma_pd_lookup_found(pds: Seq<PropertyDefinition>, name: Seq<char>, i: int)
    requires
        0 <= i < pds.len(),
        pds[i].name@ == name,
        forall|j: int| 0 <= j < i ==> (#[trigger] pds[j]).name@ != name,
    ensures
        pd_lookup(pds, name) == Some(pds[i]),
    decreases i,
{
    if i > 0 {
        assert(pds.skip(1)[i - 1] == pds[i]);
        assert(forall|j: int| 0 <= j < i - 1 ==> #[trigger] pds.skip(1)[j] == pds[j + 1]);
        lemma_pd_lookup_found(pds.skip(1), name, i - 1);
    }
}

proof fn lemma_pd_lookup_none(pds: Seq<PropertyDefinition>, name: Seq<char>)
    requires
        forall|j: int| 0 <= j < pds.len() ==> (#[trigger] pds[j]).name@ != name,
    ensures
        pd_lookup(pds, name) is None,
    decreases pds.len(),
{
    if pds.len() > 0 {
        assert(forall|j: int| 0 <= j < pds.skip(1).len() ==> #[trigger] pds.skip(1)[j] == pds[j
            + 1]);
        lemma_pd_lookup_none(pds.skip(1), name);
    }
}

/// Finds the property definition behind a settings key.
fn find_property<'a>(pds: &'a Vec<PropertyDefinition>, name: &str) -> (r: Option<
    &'a PropertyDefinition,
>)
    ensures
        match r {
            Some(pd) => pd_lookup(pds@, name@) == Some(*pd),
            None => pd_lookup(pds@, name@) is None,
        },
{
    let n = pds.len();
    let mut i: usize = 0;
    while i < n
        invariant
            n == pds@.len(),
            i <= n,
            forall|j: int| 0 <= j < i ==> (#[trigger] pds@[j]).name@ != name@,
        decreases n - i,
    {
        if str_eq(pds[i].name.as_str(), name) {
            proof {
                lemma_pd_lookup_found(pds@, name@, i as int);
            }
            return Some(&pds[i]);
        }
        i += 1;
    }
    proof {
        lemma_pd_lookup_none(pds@, name@);
    }
    None
}

/// A settings value the emitter can serialize: a literal, a compiled
/// expression or identifier, or a nested block whose own values qualify.
/// Each key must name a property of the type being built.
pub open spec fn value_emittable(v: ValueDefinition, pds: Seq<PropertyDefinition>) -> bool
    decreases v, 0nat,
{
    match v {
        ValueDefinition::LiteralValue(_) => true,
        ValueDefinition::Expression(_, id) => id is Some,
        ValueDefinition::Identifier(_, id) => id is Some,
        ValueDefinition::Block(b) => pairs_emittable(b.settings_key_value_pairs@, pds),
        _ => false,
    }
}

/// Every pair of a settings block names a known property and carries an
/// emittable value.
pub open spec fn pairs_emittable(
    pairs: Seq<(String, ValueDefinition)>,
    pds: Seq<PropertyDefinition>,
) -> bool
    decreases pairs, 1nat,
{
    if pairs.len() == 0 {
        true
    } else {
        &&& pd_lookup(pds, pairs[0].0@) is Some
        &&& value_emittable(pairs[0].1, pds)
        &&& pairs_emittable(pairs.skip(1), pds)
    }
}

proof fn lemma_pairs_emittable_index(
    pairs: Seq<(String, ValueDefinition)>,
    pds: Seq<PropertyDefinition>,
    i: int,
)
    requires
        pairs_emittable(pairs, pds),
        0 <= i < pairs.len(),
    ensures
        pd_lookup(pds, pairs[i].0@) is Some,
        value_emittable(pairs[i].1, pds),
    decreases i,
{
    if i > 0 {
        assert(pairs.skip(1)[i - 1] == pairs[i]);
        lemma_pairs_emittable_index(pairs.skip(1), pds, i - 1);
    }
}

/// The emitted assignment for one settings pair. The type behind the key
/// qualifies literal conversions; expression values reference their vtable
/// id; a nested block nests the whole struct expression.
pub open spec fn ril_entry(
    key: Seq<char>,
    v: ValueDefinition,
    qualified_path: Seq<char>,
    prefix: Seq<char>,
    pds: Seq<PropertyDefinition>,
) -> Seq<char>
    decreases v, 0nat,
{
    let fq_type = prefix + match pd_lookup(pds, key) {
        Some(pd) => pd.type_id@,
        None => Seq::<char>::empty(),
    };
    match v {
        ValueDefinition::LiteralValue(value) => "ret."@ + key
            + " = Box::new(PropertyLiteral::new(Into::<"@ + fq_type + ">::into("@ + value@
            + ")));"@,
        ValueDefinition::Expression(_, id) => "ret."@ + key + " = Box::new(PropertyExpression::new("@
            + dec_seq(id->0 as nat) + "));"@,
        ValueDefinition::Identifier(_, id) => "ret."@ + key
            + " = Box::new(PropertyExpression::new("@ + dec_seq(id->0 as nat) + "));"@,
        ValueDefinition::Block(b) => "ret."@ + key + " = Box::new(PropertyLiteral::new(Into::<"@
            + fq_type + ">::into("@ + ril_block(
            b.settings_key_value_pairs@,
            qualified_path,
            prefix,
            pds,
        ) + ")));"@,
        _ => Seq::<char>::empty(),
    }
}

/// The emitted assignments of a block's pairs, each on its own line.
pub open spec fn ril_entries(
    pairs: Seq<(String, ValueDefinition)>,
    qualified_path: Seq<char>,
    prefix: Seq<char>,
    pds: Seq<PropertyDefinition>,
) -> Seq<char>
    decreases pairs, 1nat,
{
    if pairs.len() == 0 {
        Seq::<char>::empty()
    } else {
        "\n"@ + ril_entry(pairs[0].0@, pairs[0].1, qualified_path, prefix, pds) + ril_entries(
            pairs.skip(1),
            qualified_path,
            prefix,
            pds,
        )
    }
}

/// The emitted struct expression for a whole settings block.
pub open spec fn ril_block(
    pairs: Seq<(String, ValueDefinition)>,
    qualified_path: Seq<char>,
    prefix: Seq<char>,
    pds: Seq<PropertyDefinition>,
) -> Seq<char>
    decreases pairs, 2nat,
{
    "\n{ let mut ret = "@ + qualified_path + "::default();"@ + ril_entries(
        pairs,
        qualified_path,
        prefix,
        pds,
    ) + "\n ret }"@
}

/// The import path of the built type, qualified by the host crate's prefix.
pub open spec fn qualified_path_of(td: TypeDefinition, hci: HostCrateInfo) -> Seq<char> {
    hci.import_prefix@ + replace_seq(td.import_path@, "crate::"@, ""@)
}

/// Emits the struct-expression text that instantiates a literal settings
/// block of the given type: one assignment per pair, nested blocks inlined.
pub fn recurse_literal_block(
    block: &LiteralBlockDefinition,
    type_definition: &TypeDefinition,
    host_crate_info: &HostCrateInfo,
) -> (r: String)
    requires
        pairs_emittable(
            block.settings_key_value_pairs@,
            type_definition.property_definitions@,
        ),
    ensures
        r@ == ril_block(
            block.settings_key_value_pairs@,
            qualified_path_of(*type_definition, *host_crate_info),
            host_crate_info.import_prefix@,
            type_definition.property_definitions@,
        ),
    decreases *block,
{
    proof {
        reveal_strlit("crate::");
    }
    let mut qualified_path = host_crate_info.import_prefix.clone();
    qualified_path.append(replace_all(type_definition.import_path.as_str(), "crate::", "").as_str());
    let ghost qp = qualified_path_of(*type_definition, *host_crate_info);
    let ghost prefix = host_crate_info.import_prefix@;
    let ghost pds = type_definition.property_definitions@;
    let ghost pairs = block.settings_key_value_pairs@;

    let mut out = String::new();
    out.append("\n{ let mut ret = ");
    out.append(qualified_path.as_str());
    out.append("::default();");
    proof {
        assert(pairs.skip(0) =~= pairs);
        assert(out@ + ril_entries(pairs, qp, prefix, pds) + "\n ret }"@ =~= ril_block(
            pairs,
            qp,
            prefix,
            pds,
        ));
    }
    let n = block.settings_key_value_pairs.len();
    let mut i: usize = 0;
    while i < n
        invariant
            pairs == block.settings_key_value_pairs@,
            pds == type_definition.property_definitions@,
            prefix == host_crate_info.import_prefix@,
            qp == qualified_path_of(*type_definition, *host_crate_info),
            qualified_path@ == qp,
            pairs_emittable(pairs, pds),
            n == pairs.len(),
            i <= n,
            out@ + ril_entries(pairs.skip(i as int), qp, prefix, pds) + "\n ret }"@ == ril_block(
                pairs,
                qp,
                prefix,
                pds,
            ),
        decreases n - i,
    {
        let ghost rest = pairs.skip(i as int);
        proof {
            assert(rest[0] == pairs[i as int]);
            assert(rest.skip(1) =~= pairs.skip(i as int + 1));
            lemma_pairs_emittable_index(pairs, pds, i as int);
        }
        let pair = &block.settings_key_value_pairs[i];
        let key = pair.0.as_str();
        let ghost before = out@;
        out.append("\n");
        out.append("ret.");
        out.append(key);
        match &pair.1 {
            ValueDefinition::LiteralValue(value) => {
                out.append(" = Box::new(PropertyLiteral::new(Into::<");
                let pd = match find_property(&type_definition.property_definitions, key) {
                    Some(pd) => pd,
                    None => {
                        proof {
                            assert(false);
                        }
                        vstd::pervasive::unreached()
                    },
                };
                out.append(host_crate_info.import_prefix.as_str());
                out.append(pd.type_id.as_str());
                out.append(">::into(");
                out.append(value.as_str());
                out.append(")));");
            },
            ValueDefinition::Expression(_, id) | ValueDefinition::Identifier(_, id) => {
                out.append(" = Box::new(PropertyExpression::new(");
                let id = match id {
                    Some(id) => *id,
                    None => {
                        proof {
                            assert(false);
                        }
                        vstd::pervasive::unreached()
                    },
                };
                out.append(usize_to_decimal(id).as_str());
                out.append("));");
            },
            ValueDefinition::Block(inner_block) => {
                out.append(" = Box::new(PropertyLiteral::new(Into::<");
                let pd = match find_property(&type_definition.property_definitions, key) {
                    Some(pd) => pd,
                    None => {
                        proof {
                            assert(false);
                        }
                        vstd::pervasive::unreached()
                    },
                };
                out.append(host_crate_info.import_prefix.as_str());
                out.append(pd.type_id.as_str());
                out.append(">::into(");
                let nested = recurse_literal_block(inner_block, type_definition, host_crate_info);
                out.append(nested.as_str());
                out.append(")));");
            },
            _ => {
                proof {
                    assert(false);
                }
                vstd::pervasive::unreached()
            },
        }
        proof {
            assert(out@ =~= before + "\n"@ + ril_entry(rest[0].0@, rest[0].1, qp, prefix, pds));
            assert(out@ + ril_entries(pairs.skip(i as int + 1), qp, prefix, pds) + "\n ret }"@
                =~= ril_block(pairs, qp, prefix, pds));
        }
        i += 1;
    }
    proof {
        assert(pairs.skip(n as int) =~= Seq::<(String, ValueDefinition)>::empty());
    }
    out.append("\n ret }");
    proof {
        assert(out@ =~= ril_block(pairs, qp, prefix, pds));
    }
    out
}

} // verus!
