//! Enum emission: turns an ordered catalog of control/property records into
//! the text of C enum declarations, and the whole generated header.
//!
//! For each category one primary ID enum is emitted, whose members are
//! numbered 1, 2, 3, ... in catalog order; each record that carries a value
//! enumeration additionally gets a secondary named enum with its explicit
//! values, emitted verbatim.

use vstd::prelude::*;
use crate::docfmt::docstring_of;
use crate::docfmt::format_docstring;
use crate::numfmt::dec_int;
use crate::numfmt::dec_nat;
use crate::numfmt::i64_to_dec;
use crate::numfmt::usize_to_dec;
use crate::translit::enum_constant_of;
use crate::translit::shout_of;
use crate::translit::snake_of;
use crate::translit::to_const_name;
use crate::translit::to_enum_name;
use crate::translit::to_type_name;

verus! {

/// One named, explicitly valued member of a record's value enumeration.
pub struct ControlValue {
    pub name: String,
    pub description: String,
    pub value: i64,
}

/// One control or property record: a mixed-case identifier, free-text
/// description, and an optional ordered value enumeration.
pub struct Control {
    pub name: String,
    pub description: String,
    pub enumeration: Option<Vec<ControlValue>>,
}

/// The mathematical model of a `ControlValue`.
pub struct ValueView {
    pub name: Seq<char>,
    pub description: Seq<char>,
    pub value: int,
}

/// The mathematical model of a `Control`.
pub struct ControlView {
    pub name: Seq<char>,
    pub description: Seq<char>,
    pub enumeration: Option<Seq<ValueView>>,
}

impl View for ControlValue {
    type V = ValueView;

    open spec fn view(&self) -> ValueView {
        ValueView { name: self.name@, description: self.description@, value: self.value as int }
    }
}

impl View for Control {
    type V = ControlView;

    open spec fn view(&self) -> ControlView {
        ControlView {
            name: self.name@,
            description: self.description@,
            enumeration: match self.enumeration {
                Option::None => Option::None,
                Option::Some(vals) => Option::Some(vals@.map_values(|v: ControlValue| v@)),
            },
        }
    }
}

/// A well-formed value entry: its identifier is non-empty.
pub open spec fn wf_value(v: ValueView) -> bool {
    v.name.len() > 0
}

/// A well-formed record: its identifier is non-empty, and so is every
/// identifier of its value enumeration.
pub open spec fn wf_control(c: ControlView) -> bool {
    &&& c.name.len() > 0
    &&& match c.enumeration {
        Option::None => true,
        Option::Some(vals) => forall|i: int| 0 <= i < vals.len() ==> wf_value(#[trigger] vals[i]),
    }
}

/// Every record of a catalog slice is well formed.
pub open spec fn wf_controls(records: Seq<ControlView>) -> bool {
    forall|i: int| 0 <= i < records.len() ==> wf_control(#[trigger] records[i])
}

/// The views of a vector of records.
pub open spec fn views_of_controls(records: Seq<Control>) -> Seq<ControlView> {
    records.map_values(|c: Control| c@)
}

/// The member line of the primary ID enum for one record.
pub open spec fn id_line(name: Seq<char>, id: nat) -> Seq<char> {
    "    "@ + enum_constant_of(name) + " = "@ + dec_nat(id) + ",\n"@
}

/// The docstrings and member lines of the first `k` records of the primary
/// ID enum; record `j` (zero-based) is numbered `j + 1`.
pub open spec fn primary_entries(records: Seq<ControlView>, k: int) -> Seq<char>
    decreases k,
{
    if k <= 0 {
        Seq::empty()
    } else {
        primary_entries(records, k - 1) + docstring_of(records[k - 1].description, 4) + id_line(
            records[k - 1].name,
            k as nat,
        )
    }
}

/// The whole primary ID enum of a category.
pub open spec fn primary_enum(records: Seq<ControlView>, category: Seq<char>) -> Seq<char> {
    "enum libcamera_"@ + category + "_id {\n"@ + primary_entries(records, records.len() as int)
        + "};\n\n"@
}

/// The member line of a secondary value enum for one value entry.
pub open spec fn value_line(v: ValueView) -> Seq<char> {
    "    LIBCAMERA_"@ + shout_of(v.name) + " = "@ + dec_int(v.value) + ",\n"@
}

/// The docstrings and member lines of the first `k` value entries of a
/// secondary enum.
pub open spec fn value_entries(vals: Seq<ValueView>, k: int) -> Seq<char>
    decreases k,
{
    if k <= 0 {
        Seq::empty()
    } else {
        value_entries(vals, k - 1) + docstring_of(vals[k - 1].description, 4) + value_line(
            vals[k - 1],
        )
    }
}

/// The secondary value enum of one record: empty when the record carries no
/// value enumeration.
pub open spec fn secondary_enum(rec: ControlView) -> Seq<char> {
    match rec.enumeration {
        Option::None => Seq::empty(),
        Option::Some(vals) => "/**\n"@ + " * \\brief Supported values for "@ + enum_constant_of(
            rec.name,
        ) + "\n"@ + " */\n"@ + "enum libcamera_"@ + snake_of(rec.name) + " {\n"@ + value_entries(
            vals,
            vals.len() as int,
        ) + "};\n\n"@,
    }
}

/// The secondary value enums of the first `k` records, in catalog order.
pub open spec fn secondary_enums(records: Seq<ControlView>, k: int) -> Seq<char>
    decreases k,
{
    if k <= 0 {
        Seq::empty()
    } else {
        secondary_enums(records, k - 1) + secondary_enum(records[k - 1])
    }
}

/// All the text emitted for one category: the primary ID enum, then the
/// secondary value enums.
pub open spec fn category_of(records: Seq<ControlView>, category: Seq<char>) -> Seq<char> {
    primary_enum(records, category) + secondary_enums(records, records.len() as int)
}

/// The whole generated header: the generated-by comment, the include
/// guard, the control category, the property category, and the closing
/// guard line.
pub open spec fn header_of(controls: Seq<ControlView>, properties: Seq<ControlView>) -> Seq<char> {
    "/// Generated by `cargo run --bin generate_c`\n"@ + "\n"@
        + "#ifndef __LIBCAMERA_C_CONTROLS_GENERATED__\n"@
        + "#define __LIBCAMERA_C_CONTROLS_GENERATED__\n"@ + "\n"@ + "\n"@ + category_of(
        controls,
        "control"@,
    ) + category_of(properties, "property"@) + "#endif\n"@
}

/// `needle` occurs as one contiguous run inside `hay`.
pub open spec fn contains_seq(hay: Seq<char>, needle: Seq<char>) -> bool {
    exists|p: int|
        0 <= p && p + needle.len() <= hay.len() && #[trigger] hay.subrange(
            p,
            p + needle.len() as int,
        ) == needle
}

proof fn lemma_contains_self(x: Seq<char>)
    ensures
        contains_seq(x, x),
{
    assert(x.subrange(0, 0 + x.len() as int) =~= x);
}

proof fn lemma_contains_concat_left(a: Seq<char>, b: Seq<char>, x: Seq<char>)
    requires
        contains_seq(a, x),
    ensures
        contains_seq(a + b, x),
{
    let p = choose|p: int|
        0 <= p && p + x.len() <= a.len() && #[trigger] a.subrange(p, p + x.len() as int) == x;
    assert((a + b).subrange(p, p + x.len() as int) =~= a.subrange(p, p + x.len() as int));
}

proof fn lemma_contains_concat_right(a: Seq<char>, b: Seq<char>, x: Seq<char>)
    requires
        contains_seq(b, x),
    ensures
        contains_seq(a + b, x),
{
    let p = choose|p: int|
        0 <= p && p + x.len() <= b.len() && #[trigger] b.subrange(p, p + x.len() as int) == x;
    assert((a + b).subrange(a.len() + p, a.len() + p + x.len() as int) =~= b.subrange(
        p,
        p + x.len() as int,
    ));
}

proof fn lemma_primary_entries_contain(records: Seq<ControlView>, k: int, j: int)
    requires
        0 <= j < k,
    ensures
        contains_seq(primary_entries(records, k), id_line(records[j].name, (j + 1) as nat)),
    decreases k,
{
    let line = id_line(records[j].name, (j + 1) as nat);
    if k == j + 1 {
        lemma_contains_self(line);
        lemma_contains_concat_right(
            primary_entries(records, j) + docstring_of(records[j].description, 4),
            line,
            line,
        );
    } else {
        lemma_primary_entries_contain(records, k - 1, j);
        lemma_contains_concat_left(
            primary_entries(records, k - 1),
            docstring_of(records[k - 1].description, 4) + id_line(records[k - 1].name, k as nat),
            line,
        );
        assert(primary_entries(records, k) =~= primary_entries(records, k - 1) + (docstring_of(
            records[k - 1].description,
            4,
        ) + id_line(records[k - 1].name, k as nat)));
    }
}

/// Sequential ID law: in the emitted text of a category, record `k`
/// (zero-based, in catalog order) gets the primary-enum member line that
/// assigns it the value `k + 1`, whatever its name or description holds.
pub proof fn lemma_sequential_ids(records: Seq<ControlView>, category: Seq<char>, k: int)
    requires
        0 <= k < records.len(),
    ensures
        contains_seq(category_of(records, category), id_line(records[k].name, (k + 1) as nat)),
{
    let line = id_line(records[k].name, (k + 1) as nat);
    lemma_primary_entries_contain(records, records.len() as int, k);
    lemma_contains_concat_right(
        "enum libcamera_"@ + category + "_id {\n"@,
        primary_entries(records, records.len() as int),
        line,
    );
    lemma_contains_concat_left(
        "enum libcamera_"@ + category + "_id {\n"@ + primary_entries(
            records,
            records.len() as int,
        ),
        "};\n\n"@,
        line,
    );
    lemma_contains_concat_left(
        primary_enum(records, category),
        secondary_enums(records, records.len() as int),
        line,
    );
}

/// Full-run determinism: the generated header is a function of the catalog
/// alone, so two runs over identical catalogs produce identical text.
pub proof fn lemma_full_run_deterministic(
    controls1: Seq<ControlView>,
    properties1: Seq<ControlView>,
    controls2: Seq<ControlView>,
    properties2: Seq<ControlView>,
)
    requires
        controls1 == controls2,
        properties1 == properties2,
    ensures
        header_of(controls1, properties1) == header_of(controls2, properties2),
{
}

/// Emits the enums of one category.
#[verifier::rlimit(60)]
pub fn generate_controls(controls: &Vec<Control>, name: &str) -> (out: String)
    requires
        wf_controls(views_of_controls(controls@)),
    ensures
        out@ == category_of(views_of_controls(controls@), name@),
{
    let ghost records = views_of_controls(controls@);
    let mut out = String::new();
    out.append("enum libcamera_");
    out.append(name);
    out.append("_id {\n");
    let mut k: usize = 0;
    while k < controls.len()
        invariant
            records == views_of_controls(controls@),
            wf_controls(records),
            k <= controls@.len(),
            out@ == "enum libcamera_"@ + name@ + "_id {\n"@ + primary_entries(records, k as int),
        decreases controls@.len() - k,
    {
        let rec = &controls[k];
        assert(records[k as int] == rec@);
        let doc = format_docstring(rec.description.as_str(), 4);
        out.append(doc.as_str());
        out.append("    ");
        let member = to_enum_name(rec.name.as_str());
        out.append(member.as_str());
        out.append(" = ");
        let id = usize_to_dec(k + 1);
        out.append(id.as_str());
        out.append(",\n");
        proof {
            assert(out@ =~= "enum libcamera_"@ + name@ + "_id {\n"@ + primary_entries(
                records,
                k + 1,
            ));
        }
        k += 1;
    }
    out.append("};\n\n");
    proof {
        assert(out@ =~= primary_enum(records, name@) + secondary_enums(records, 0));
    }
    let mut k2: usize = 0;
    while k2 < controls.len()
        invariant
            records == views_of_controls(controls@),
            wf_controls(records),
            k2 <= controls@.len(),
            out@ == primary_enum(records, name@) + secondary_enums(records, k2 as int),
        decreases controls@.len() - k2,
    {
        let rec = &controls[k2];
        assert(records[k2 as int] == rec@);
        if let Option::Some(vals) = &rec.enumeration {
            let ghost val_views = vals@.map_values(|v: ControlValue| v@);
            proof {
                assert(wf_control(records[k2 as int]));
                assert(records[k2 as int].enumeration == Option::Some(val_views));
                assert forall|i: int| 0 <= i < val_views.len() implies wf_value(
                    #[trigger] val_views[i],
                ) by {
                    let vs = records[k2 as int].enumeration->Some_0;
                    assert(wf_value(vs[i]));
                }
            }
            out.append("/**\n");
            out.append(" * \\brief Supported values for ");
            let member = to_enum_name(rec.name.as_str());
            out.append(member.as_str());
            out.append("\n");
            out.append(" */\n");
            out.append("enum libcamera_");
            let snake_name = to_type_name(rec.name.as_str());
            out.append(snake_name.as_str());
            out.append(" {\n");
            let ghost base = out@;
            let mut j: usize = 0;
            while j < vals.len()
                invariant
                    val_views == vals@.map_values(|v: ControlValue| v@),
                    forall|i: int| 0 <= i < val_views.len() ==> wf_value(#[trigger] val_views[i]),
                    j <= vals@.len(),
                    base == out@.take(base.len() as int),
                    out@ == base + value_entries(val_views, j as int),
                decreases vals@.len() - j,
            {
                let val = &vals[j];
                assert(val_views[j as int] == val@);
                let doc = format_docstring(val.description.as_str(), 4);
                out.append(doc.as_str());
                out.append("    LIBCAMERA_");
                let const_name = to_const_name(val.name.as_str());
                out.append(const_name.as_str());
                out.append(" = ");
                let num = i64_to_dec(val.value);
                out.append(num.as_str());
                out.append(",\n");
                proof {
                    assert(out@ =~= base + value_entries(val_views, j + 1));
                    assert(base == out@.take(base.len() as int));
                }
                j += 1;
            }
            out.append("};\n\n");
            proof {
                assert(out@ =~= primary_enum(records, name@) + secondary_enums(
                    records,
                    k2 as int,
                ) + secondary_enum(records[k2 as int]));
                assert(out@ =~= primary_enum(records, name@) + secondary_enums(records, k2 + 1));
            }
        } else {
            proof {
                assert(secondary_enum(records[k2 as int]) =~= Seq::<char>::empty());
                assert(out@ =~= primary_enum(records, name@) + secondary_enums(records, k2 + 1));
            }
        }
        k2 += 1;
    }
    proof {
        assert(out@ =~= category_of(records, name@));
    }
    out
}

/// Emits the whole header for the two categories of a catalog.
pub fn generate_header(controls: &Vec<Control>, properties: &Vec<Control>) -> (out: String)
    requires
        wf_controls(views_of_controls(controls@)),
        wf_controls(views_of_controls(properties@)),
    ensures
        out@ == header_of(views_of_controls(controls@), views_of_controls(properties@)),
{
    let mut out = String::new();
    out.append("/// Generated by `cargo run --bin generate_c`\n");
    out.append("\n");
    out.append("#ifndef __LIBCAMERA_C_CONTROLS_GENERATED__\n");
    out.append("#define __LIBCAMERA_C_CONTROLS_GENERATED__\n");
    out.append("\n");
    out.append("\n");
    let control_text = generate_controls(controls, "control");
    out.append(control_text.as_str());
    let property_text = generate_controls(properties, "property");
    out.append(property_text.as_str());
    out.append("#endif\n");
    out
}

} // verus!
