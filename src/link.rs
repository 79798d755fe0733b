use crate::error::Error;
use crate::text::{indent, same_text};
use crate::unit::{Language, Net, NetView, Unit, UnitView, is_input_mode, is_output_mode, nets_view};
use vstd::prelude::*;
use vstd::string::*;
use vstd::utf8::encode_utf8;

verus! {

pub const VHDL_HEAD_COMMENT: &'static str = "-- This procedure is automatically @generated by Verb.\n-- It is not intended for manual editing.\n";

pub const VHDL_HEAD_COMMENT_RECORD: &'static str = "-- This record is automatically @generated by Verb.\n-- It is not intended for manual editing.\n";

pub const SV_HEAD_COMMENT: &'static str = "// This SystemVerilog task is automatically @generated by Verb.\n// It is not intended for manual editing.\n";

pub const SV_HEAD_COMMENT_INTERFACE: &'static str = "// This interface is automatically @generated by Verb.\n// It is not intended for manual editing.\n";

/// The views of the nets that a list of references points to.
pub open spec fn refs_view(s: Seq<&Net>) -> Seq<NetView> {
    s.map_values(|n: &Net| n@)
}

/// The text that `f` gives for each of the first `k` nets, in order.
pub open spec fn lines(s: Seq<NetView>, k: int, f: spec_fn(NetView) -> Seq<char>) -> Seq<char>
    decreases k,
{
    if k <= 0 || k > s.len() {
        Seq::empty()
    } else {
        lines(s, k - 1, f) + f(s[k - 1])
    }
}

/// The entries that `f` gives for each of the first `k` generics, one per
/// line, with a comma after each but the last of all.
pub open spec fn entries(s: Seq<NetView>, k: int, f: spec_fn(NetView) -> Seq<char>) -> Seq<char>
    decreases k,
{
    if k <= 0 || k > s.len() {
        Seq::empty()
    } else {
        entries(s, k - 1, f) + f(s[k - 1]) + (if k < s.len() { ","@ } else { Seq::empty() }) + "\n"@
    }
}

/// A parameter list built from generics: empty when there are none.
pub open spec fn param_list(g: Seq<NetView>, f: spec_fn(NetView) -> Seq<char>) -> Seq<char> {
    if g.len() == 0 {
        Seq::empty()
    } else {
        " #(\n"@ + entries(g, g.len() as int, f) + ")"@
    }
}

/// One field of the VHDL record.
pub open spec fn vhdl_field(n: NetView) -> Seq<char> {
    indent(1) + n.identifier + ": "@ + n.dtype + ";\n"@
}

/// The VHDL record that gathers the ports.
pub open spec fn vhdl_bfm(ports: Seq<NetView>, unit: Seq<char>) -> Seq<char> {
    VHDL_HEAD_COMMENT_RECORD@ + "type "@ + unit + "_bfm is record\n"@
        + lines(ports, ports.len() as int, vhdl_field_fn()) + "end record;"@
}

/// The VHDL signal that instantiates the record.
pub open spec fn vhdl_bfm_inst(unit: Seq<char>, inst: Seq<char>) -> Seq<char> {
    "signal "@ + inst + ": "@ + unit + "_bfm;"@
}

/// One binding of a SystemVerilog parameter to the generic of the same name.
pub open spec fn sv_param_bind(n: NetView) -> Seq<char> {
    indent(1) + "."@ + n.identifier + "("@ + n.identifier + ")"@
}

/// The optional default clause of a SystemVerilog parameter.
pub open spec fn default_clause(d: Option<Seq<char>>) -> Seq<char> {
    match d {
        Some(v) => " = "@ + v,
        None => Seq::empty(),
    }
}

/// One SystemVerilog parameter declaration.
pub open spec fn sv_param_entry(n: NetView) -> Seq<char> {
    indent(1) + n.mode + " "@ + n.dtype + " "@ + n.identifier + default_clause(n.default)
}

/// The parameter bindings of a SystemVerilog instance.
pub open spec fn sv_param_inst(g: Seq<NetView>) -> Seq<char> {
    param_list(g, sv_param_bind_fn())
}

/// The parameter declarations of a SystemVerilog interface.
pub open spec fn sv_param_decl(g: Seq<NetView>) -> Seq<char> {
    param_list(g, sv_param_entry_fn())
}

/// The SystemVerilog instance of the interface.
pub open spec fn sv_bfm_inst(unit: Seq<char>, g: Seq<NetView>, inst: Seq<char>) -> Seq<char> {
    unit + "_bfm"@ + sv_param_inst(g) + " "@ + inst + "();"@
}

/// One signal of the SystemVerilog interface.
pub open spec fn sv_field(n: NetView) -> Seq<char> {
    indent(1) + n.dtype + " "@ + n.identifier + ";\n"@
}

/// The SystemVerilog interface that gathers the ports.
pub open spec fn sv_bfm(ports: Seq<NetView>, g: Seq<NetView>, unit: Seq<char>) -> Seq<char> {
    SV_HEAD_COMMENT_INTERFACE@ + "interface "@ + unit + "_bfm"@ + sv_param_decl(g) + ";\n"@
        + lines(ports, ports.len() as int, sv_field_fn()) + "endinterface"@
}

/// The VHDL statement that drives one port from the row read.
pub open spec fn vhdl_drive(inst: Seq<char>, n: NetView) -> Seq<char> {
    indent(2) + "drive(row, "@ + inst + "."@ + n.identifier + ");\n"@
}

/// The VHDL procedure that drives the ports from one line of the input file.
pub open spec fn vhdl_send(ports: Seq<NetView>, inst: Seq<char>) -> Seq<char> {
    VHDL_HEAD_COMMENT@ + "procedure send(file i: text) is\n"@ + indent(1) + "variable row: line;\nbegin\n"@
        + indent(1) + "if endfile(i) = false then\n"@ + indent(2) + "readline(i, row);\n"@
        + lines(ports, ports.len() as int, vhdl_drive_fn(inst))
        + indent(1) + "end if;\nend procedure;"@
}

/// The SystemVerilog statement that drives one port from the row read.
pub open spec fn sv_drive(inst: Seq<char>, n: NetView) -> Seq<char> {
    indent(2) + "$sscanf(drive(row), \"%b\", "@ + inst + "."@ + n.identifier + ");\n"@
}

/// The SystemVerilog task that drives the ports from one line of the input file.
pub open spec fn sv_send(ports: Seq<NetView>, inst: Seq<char>) -> Seq<char> {
    SV_HEAD_COMMENT@ + "task automatic send(int i);\n"@ + indent(1) + "string row;\n"@
        + indent(1) + "if(!$feof(i)) begin\n"@ + indent(2) + "$fgets(row, i);\n"@
        + indent(2) + "if(row.len() == 0) return;\n"@
        + lines(ports, ports.len() as int, sv_drive_fn(inst))
        + indent(1) + "end\nendtask"@
}

/// The VHDL statements that load one expected value and compare it.
pub open spec fn vhdl_check(inst: Seq<char>, n: NetView) -> Seq<char> {
    indent(2) + "load(row, mdl."@ + n.identifier + ");\n"@
        + indent(2) + "assert_eq(e, "@ + inst + "."@ + n.identifier + ", mdl."@ + n.identifier
        + ", \""@ + n.identifier + "\");\n"@
}

/// The VHDL procedure that compares the ports against one line of expected output.
pub open spec fn vhdl_comp(ports: Seq<NetView>, unit: Seq<char>, inst: Seq<char>) -> Seq<char> {
    VHDL_HEAD_COMMENT@ + "procedure compare(file e: text; file o: text) is\n"@
        + indent(1) + "variable row: line;\n"@ + indent(1) + "variable mdl: "@ + unit + "_bfm;\nbegin\n"@
        + indent(1) + "if endfile(o) = false then\n"@ + indent(2) + "readline(o, row);\n"@
        + lines(ports, ports.len() as int, vhdl_check_fn(inst))
        + indent(1) + "end if;\nend procedure;"@
}

/// The SystemVerilog statements that load one expected value and compare it.
pub open spec fn sv_check(inst: Seq<char>, mdl: Seq<char>, n: NetView) -> Seq<char> {
    "\n"@ + indent(2) + "$sformat(recv, \"%b\", "@ + inst + "."@ + n.identifier + ");\n"@
        + indent(2) + "$sscanf(load(row), \"%b\", "@ + mdl + "."@ + n.identifier + ");\n"@
        + indent(2) + "$sformat(expt, \"%b\", "@ + mdl + "."@ + n.identifier + ");\n"@
        + indent(2) + "assert_eq(e, recv, expt, \""@ + n.identifier + "\");\n"@
}

/// The SystemVerilog task that compares the ports against one line of expected output.
pub open spec fn sv_comp(ports: Seq<NetView>, inst: Seq<char>, mdl: Seq<char>) -> Seq<char> {
    SV_HEAD_COMMENT@ + "task automatic compare(int e, int o);\n"@ + indent(1) + "string row, recv, expt;\n"@
        + indent(1) + "if(!$feof(o)) begin\n"@ + indent(2) + "$fgets(row, o);\n"@
        + indent(2) + "if(row.len() == 0) return;\n"@
        + lines(ports, ports.len() as int, sv_check_fn(inst, mdl))
        + indent(1) + "end\nendtask"@
}

/// `vhdl_field` as a function value.
pub open spec fn vhdl_field_fn() -> spec_fn(NetView) -> Seq<char> {
    |n: NetView| vhdl_field(n)
}

/// `sv_param_bind` as a function value.
pub open spec fn sv_param_bind_fn() -> spec_fn(NetView) -> Seq<char> {
    |n: NetView| sv_param_bind(n)
}

/// `sv_param_entry` as a function value.
pub open spec fn sv_param_entry_fn() -> spec_fn(NetView) -> Seq<char> {
    |n: NetView| sv_param_entry(n)
}

/// `sv_field` as a function value.
pub open spec fn sv_field_fn() -> spec_fn(NetView) -> Seq<char> {
    |n: NetView| sv_field(n)
}

/// `vhdl_drive` for one instance, as a function value.
pub open spec fn vhdl_drive_fn(inst: Seq<char>) -> spec_fn(NetView) -> Seq<char> {
    |n: NetView| vhdl_drive(inst, n)
}

/// `sv_drive` for one instance, as a function value.
pub open spec fn sv_drive_fn(inst: Seq<char>) -> spec_fn(NetView) -> Seq<char> {
    |n: NetView| sv_drive(inst, n)
}

/// `vhdl_check` for one instance, as a function value.
pub open spec fn vhdl_check_fn(inst: Seq<char>) -> spec_fn(NetView) -> Seq<char> {
    |n: NetView| vhdl_check(inst, n)
}

/// `sv_check` for one instance and model, as a function value.
pub open spec fn sv_check_fn(inst: Seq<char>, mdl: Seq<char>) -> spec_fn(NetView) -> Seq<char> {
    |n: NetView| sv_check(inst, mdl, n)
}

/// The nets among the first `k` that satisfy `p`, in their order.
pub open spec fn select(s: Seq<NetView>, k: int, p: spec_fn(NetView) -> bool) -> Seq<NetView>
    decreases k,
{
    if k <= 0 || k > s.len() {
        Seq::empty()
    } else if p(s[k - 1]) {
        select(s, k - 1, p).push(s[k - 1])
    } else {
        select(s, k - 1, p)
    }
}

/// The nets that satisfy `p`, in their order.
pub open spec fn select_all(s: Seq<NetView>, p: spec_fn(NetView) -> bool) -> Seq<NetView> {
    select(s, s.len() as int, p)
}

/// Whether a net's identifier is not on the exclusion list (exact match).
pub open spec fn kept_fn(exclude: Seq<Seq<char>>) -> spec_fn(NetView) -> bool {
    |n: NetView| !exclude.contains(n.identifier)
}

/// Whether a net flows into the unit.
pub open spec fn input_fn() -> spec_fn(NetView) -> bool {
    |n: NetView| is_input_mode(n.mode)
}

/// Whether a net flows out of the unit.
pub open spec fn output_fn() -> spec_fn(NetView) -> bool {
    |n: NetView| is_output_mode(n.mode)
}

/// The ports left once the excluded identifiers are removed.
pub open spec fn filtered(ports: Seq<NetView>, exclude: Seq<Seq<char>>) -> Seq<NetView> {
    select_all(ports, kept_fn(exclude))
}

/// The plain text of a list of strings.
pub open spec fn strings_view(s: Seq<String>) -> Seq<Seq<char>> {
    s.map_values(|x: String| x@)
}

/// The aggregate declaration in the unit's language.
pub open spec fn declaration(u: UnitView, ports: Seq<NetView>) -> Seq<char> {
    match u.language {
        Language::Vhdl => vhdl_bfm(ports, u.identifier),
        _ => sv_bfm(ports, u.generics, u.identifier),
    }
}

/// One instance of the aggregate in the unit's language.
pub open spec fn instance(u: UnitView, inst: Seq<char>) -> Seq<char> {
    match u.language {
        Language::Vhdl => vhdl_bfm_inst(u.identifier, inst),
        _ => sv_bfm_inst(u.identifier, u.generics, inst),
    }
}

/// The stimulus procedure in the unit's language, over the input ports.
pub open spec fn stimulus(u: UnitView, ports: Seq<NetView>) -> Seq<char> {
    match u.language {
        Language::Vhdl => vhdl_send(select_all(ports, input_fn()), "bfm"@),
        _ => sv_send(select_all(ports, input_fn()), "bfm"@),
    }
}

/// The comparison procedure in the unit's language, over the output ports.
pub open spec fn comparison(u: UnitView, ports: Seq<NetView>) -> Seq<char> {
    match u.language {
        Language::Vhdl => vhdl_comp(select_all(ports, output_fn()), u.identifier, "bfm"@),
        _ => sv_comp(select_all(ports, output_fn()), "bfm"@, "mdl"@),
    }
}

/// The instances of the aggregate, one per name.
pub open spec fn instances(u: UnitView, names: Seq<Seq<char>>, k: int) -> Seq<Seq<char>>
    decreases k,
{
    if k <= 0 || k > names.len() {
        Seq::empty()
    } else {
        instances(u, names, k - 1).push(instance(u, names[k - 1]))
    }
}

/// The artifacts asked for, in their fixed order: declaration, instances,
/// stimulus, comparison.
pub open spec fn sections(
    u: UnitView,
    bfm: bool,
    names: Seq<Seq<char>>,
    send: bool,
    comp: bool,
    exclude: Seq<Seq<char>>,
) -> Seq<Seq<char>> {
    let ports = filtered(u.ports, exclude);
    (if bfm { seq![declaration(u, ports)] } else { Seq::empty() })
        + instances(u, names, names.len() as int)
        + (if send { seq![stimulus(u, ports)] } else { Seq::empty() })
        + (if comp { seq![comparison(u, ports)] } else { Seq::empty() })
}

/// The first `k` sections as printed: each on its own lines, with a blank
/// line between two.
pub open spec fn printed(secs: Seq<Seq<char>>, k: int) -> Seq<char>
    decreases k,
{
    if k <= 0 || k > secs.len() {
        Seq::empty()
    } else {
        printed(secs, k - 1) + (if k > 1 { "\n"@ } else { Seq::empty() }) + secs[k - 1] + "\n"@
    }
}

/// The identifiers of the first `k` nets, each after a space.
pub open spec fn id_list(s: Seq<NetView>, k: int) -> Seq<char>
    decreases k,
{
    if k <= 0 || k > s.len() {
        Seq::empty()
    } else {
        id_list(s, k - 1) + " "@ + s[k - 1].identifier
    }
}

/// The order in which input and output vectors are expected.
pub open spec fn vector_order(ports: Seq<NetView>) -> Seq<char> {
    let ins = select_all(ports, input_fn());
    let outs = select_all(ports, output_fn());
    "input vectors order:\n "@ + id_list(ins, ins.len() as int) + "\n\n"@
        + "output vectors order:\n "@ + id_list(outs, outs.len() as int) + "\n\n"@
}

/// The names of the instances to declare.
pub open spec fn names_view(o: Option<Vec<String>>) -> Seq<Seq<char>> {
    match o {
        Some(v) => strings_view(v@),
        None => Seq::empty(),
    }
}

/// Whether any artifact is asked for.
pub open spec fn wants_any(bfm: bool, names: Seq<Seq<char>>, send: bool, comp: bool) -> bool {
    bfm || names.len() > 0 || send || comp
}

/// The byte length of the longest of the first `k` texts, or zero.
pub open spec fn longest(ids: Seq<Seq<char>>, k: int) -> usize
    decreases k,
{
    if k <= 0 || k > ids.len() {
        0
    } else {
        let rest = longest(ids, k - 1);
        let len = encode_utf8(ids[k - 1]).len() as usize;
        if len > rest { len } else { rest }
    }
}

/// How many of the first `k` ports carry an excluded identifier.
pub open spec fn excluded_count(ports: Seq<NetView>, exclude: Seq<Seq<char>>, k: int) -> nat
    decreases k,
{
    if k <= 0 || k > ports.len() {
        0
    } else {
        excluded_count(ports, exclude, k - 1) + if exclude.contains(ports[k - 1].identifier) { 1nat } else { 0nat }
    }
}

/// The positions among the first `k` nets of those that satisfy `p`, in order.
pub open spec fn positions(s: Seq<NetView>, k: int, p: spec_fn(NetView) -> bool) -> Seq<int>
    decreases k,
{
    if k <= 0 || k > s.len() {
        Seq::empty()
    } else if p(s[k - 1]) {
        positions(s, k - 1, p).push(k - 1)
    } else {
        positions(s, k - 1, p)
    }
}

proof fn lemma_select_positions(s: Seq<NetView>, k: int, p: spec_fn(NetView) -> bool)
    requires
        0 <= k <= s.len(),
    ensures
        positions(s, k, p).len() == select(s, k, p).len(),
        forall|j: int| 0 <= j < positions(s, k, p).len() ==> {
            let i = #[trigger] positions(s, k, p)[j];
            &&& 0 <= i < k
            &&& select(s, k, p)[j] == s[i]
            &&& p(s[i])
        },
        forall|a: int, b: int| 0 <= a < b < positions(s, k, p).len() ==>
            #[trigger] positions(s, k, p)[a] < #[trigger] positions(s, k, p)[b],
        forall|i: int| 0 <= i < k && p(#[trigger] s[i]) ==> positions(s, k, p).contains(i),
    decreases k,
{
    if k > 0 {
        lemma_select_positions(s, k - 1, p);
        let prev = positions(s, k - 1, p);
        if p(s[k - 1]) {
            assert forall|i: int| 0 <= i < k && p(#[trigger] s[i]) implies positions(s, k, p).contains(i) by {
                if i == k - 1 {
                    assert(positions(s, k, p)[prev.len() as int] == i);
                } else {
                    let j = choose|j: int| 0 <= j < prev.len() && prev[j] == i;
                    assert(positions(s, k, p)[j] == i);
                }
            }
        }
    }
}

proof fn lemma_filtered_count(ports: Seq<NetView>, exclude: Seq<Seq<char>>, k: int)
    requires
        0 <= k <= ports.len(),
    ensures
        select(ports, k, kept_fn(exclude)).len() + excluded_count(ports, exclude, k) == k,
    decreases k,
{
    if k > 0 {
        lemma_filtered_count(ports, exclude, k - 1);
    }
}

/// Filtering ports keeps exactly the ports whose identifier is not excluded,
/// in their original order: the result is as long as the ports less those
/// excluded, and its entries stand at strictly increasing positions among the
/// ports, each of them kept, with every kept port among them.
pub proof fn lemma_filter_keeps_order(ports: Seq<NetView>, exclude: Seq<Seq<char>>)
    ensures
        filtered(ports, exclude).len() == ports.len() - excluded_count(ports, exclude, ports.len() as int),
        ({
            let pos = positions(ports, ports.len() as int, kept_fn(exclude));
            &&& pos.len() == filtered(ports, exclude).len()
            &&& forall|j: int| 0 <= j < pos.len() ==> {
                let i = #[trigger] pos[j];
                &&& 0 <= i < ports.len()
                &&& filtered(ports, exclude)[j] == ports[i]
                &&& !exclude.contains(ports[i].identifier)
            }
            &&& forall|a: int, b: int| 0 <= a < b < pos.len() ==> #[trigger] pos[a] < #[trigger] pos[b]
            &&& forall|i: int| 0 <= i < ports.len() && !exclude.contains(#[trigger] ports[i].identifier)
                ==> pos.contains(i)
        }),
{
    let n = ports.len() as int;
    lemma_filtered_count(ports, exclude, n);
    lemma_select_positions(ports, n, kept_fn(exclude));
    let pos = positions(ports, n, kept_fn(exclude));
    assert forall|i: int| 0 <= i < ports.len() && !exclude.contains(#[trigger] ports[i].identifier)
        implies pos.contains(i) by {
        assert(kept_fn(exclude)(ports[i]));
    }
}

/// Generates the code snippets that connect a hardware unit to a software model.
pub struct Link {
    json: Unit,
    bfm: bool,
    send: bool,
    comp: bool,
    bfm_inst: Option<Vec<String>>,
    exclude: Vec<String>,
    list: bool,
}

impl Link {
    pub fn vhdl_to_string_bfm(ports: &Vec<&Net>, unit: &str) -> (r: String)
        ensures
            r@ == vhdl_bfm(refs_view(ports@), unit@),
    {
        let ghost pv = refs_view(ports@);
        let ghost f = vhdl_field_fn();
        let mut result = String::from_str(VHDL_HEAD_COMMENT_RECORD);
        result.append("type ");
        result.append(unit);
        result.append("_bfm is record\n");
        let ghost head = result@;
        let mut i: usize = 0;
        while i < ports.len()
            invariant
                i <= ports@.len(),
                pv == refs_view(ports@),
                f == vhdl_field_fn(),
                result@ == head + lines(pv, i as int, f),
            decreases ports.len() - i,
        {
            let n = ports[i];
            result.append(Self::tab(1).as_str());
            result.append(n.get_identifier().as_str());
            result.append(": ");
            result.append(n.get_type().as_str());
            result.append(";\n");
            proof {
                assert(pv[i as int] == n@);
                assert(result@ =~= head + lines(pv, i + 1, f));
            }
            i = i + 1;
        }
        result.append("end record;");
        result
    }
    pub fn vhdl_to_string_bfm_inst(unit: &str, bfm_inst: &str) -> (r: String)
        ensures
            r@ == vhdl_bfm_inst(unit@, bfm_inst@),
    {
        let mut result = String::from_str("signal ");
        result.append(bfm_inst);
        result.append(": ");
        result.append(unit);
        result.append("_bfm;");
        result
    }

    pub fn sv_to_string_bfm_inst(unit: &str, generics: &Vec<Net>, bfm_inst: &str) -> (r: String)
        ensures
            r@ == sv_bfm_inst(unit@, nets_view(generics@), bfm_inst@),
    {
        let mut result = String::from_str(unit);
        result.append("_bfm");
        result.append(Self::sv_generate_param_inst(generics).as_str());
        result.append(" ");
        result.append(bfm_inst);
        result.append("();");
        result
    }

    pub fn sv_generate_param_inst(generics: &Vec<Net>) -> (r: String)
        ensures
            r@ == sv_param_inst(nets_view(generics@)),
    {
        let size = generics.len();
        if size == 0 {
            return String::new();
        }
        let ghost gv = nets_view(generics@);
        let ghost f = sv_param_bind_fn();
        let mut result = String::from_str(" #(\n");
        let ghost head = result@;
        let mut i: usize = 0;
        while i < size
            invariant
                size == generics@.len(),
                i <= size,
                gv == nets_view(generics@),
                f == sv_param_bind_fn(),
                result@ == head + entries(gv, i as int, f),
            decreases size - i,
        {
            let n = &generics[i];
            let mut entry = Self::tab(1);
            entry.append(".");
            entry.append(n.get_identifier().as_str());
            entry.append("(");
            entry.append(n.get_identifier().as_str());
            entry.append(")");
            proof {
                assert(gv[i as int] == n@);
                assert(entry@ =~= f(gv[i as int]));
            }
            let ghost before = result@;
            result.append(entry.as_str());
            if i + 1 < size {
                result.append(",");
            }
            result.append("\n");
            proof {
                let sep: Seq<char> = if i + 1 < size { ","@ } else { Seq::empty() };
                assert(result@ =~= before + entry@ + sep + "\n"@);
                assert(entries(gv, i + 1, f) == entries(gv, i as int, f) + f(gv[i as int]) + sep + "\n"@);
                assert(result@ =~= head + entries(gv, i + 1, f));
            }
            i = i + 1;
        }
        result.append(")");
        result
    }

    pub fn sv_generate_param_decl(generics: &Vec<Net>) -> (r: String)
        ensures
            r@ == sv_param_decl(nets_view(generics@)),
    {
        let size = generics.len();
        if size == 0 {
            return String::new();
        }
        let ghost gv = nets_view(generics@);
        let ghost f = sv_param_entry_fn();
        let mut result = String::from_str(" #(\n");
        let ghost head = result@;
        let mut i: usize = 0;
        while i < size
            invariant
                size == generics@.len(),
                i <= size,
                gv == nets_view(generics@),
                f == sv_param_entry_fn(),
                result@ == head + entries(gv, i as int, f),
            decreases size - i,
        {
            let n = &generics[i];
            let mut entry = Self::tab(1);
            entry.append(n.get_mode().as_str());
            entry.append(" ");
            entry.append(n.get_type().as_str());
            entry.append(" ");
            entry.append(n.get_identifier().as_str());
            match n.get_default() {
                Some(d) => {
                    entry.append(" = ");
                    entry.append(d.as_str());
                },
                None => {},
            }
            proof {
                assert(gv[i as int] == n@);
                assert(entry@ =~= f(gv[i as int]));
            }
            let ghost before = result@;
            result.append(entry.as_str());
            if i + 1 < size {
                result.append(",");
            }
            result.append("\n");
            proof {
                let sep: Seq<char> = if i + 1 < size { ","@ } else { Seq::empty() };
                assert(result@ =~= before + entry@ + sep + "\n"@);
                assert(entries(gv, i + 1, f) == entries(gv, i as int, f) + f(gv[i as int]) + sep + "\n"@);
                assert(result@ =~= head + entries(gv, i + 1, f));
            }
            i = i + 1;
        }
        result.append(")");
        result
    }

    pub fn sv_to_string_bfm(ports: &Vec<&Net>, generics: &Vec<Net>, unit: &str) -> (r: String)
        ensures
            r@ == sv_bfm(refs_view(ports@), nets_view(generics@), unit@),
    {
        let ghost pv = refs_view(ports@);
        let ghost f = sv_field_fn();
        let mut result = String::from_str(SV_HEAD_COMMENT_INTERFACE);
        result.append("interface ");
        result.append(unit);
        result.append("_bfm");
        result.append(Self::sv_generate_param_decl(generics).as_str());
        result.append(";\n");
        let ghost head = result@;
        let mut i: usize = 0;
        while i < ports.len()
            invariant
                i <= ports@.len(),
                pv == refs_view(ports@),
                f == sv_field_fn(),
                result@ == head + lines(pv, i as int, f),
            decreases ports.len() - i,
        {
            let n = ports[i];
            result.append(Self::tab(1).as_str());
            result.append(n.get_type().as_str());
            result.append(" ");
            result.append(n.get_identifier().as_str());
            result.append(";\n");
            proof {
                assert(pv[i as int] == n@);
                assert(result@ =~= head + lines(pv, i + 1, f));
            }
            i = i + 1;
        }
        result.append("endinterface");
        result
    }
    pub fn vhdl_to_string_send(ports: &Vec<&Net>, bfm_inst: &str) -> (r: String)
        ensures
            r@ == vhdl_send(refs_view(ports@), bfm_inst@),
    {
        let ghost pv = refs_view(ports@);
        let ghost f = vhdl_drive_fn(bfm_inst@);
        let mut result = String::from_str(VHDL_HEAD_COMMENT);
        result.append("procedure send(file i: text) is\n");
        result.append(Self::tab(1).as_str());
        result.append("variable row: line;\nbegin\n");
        result.append(Self::tab(1).as_str());
        result.append("if endfile(i) = false then\n");
        result.append(Self::tab(2).as_str());
        result.append("readline(i, row);\n");
        let ghost head = result@;
        let mut i: usize = 0;
        while i < ports.len()
            invariant
                i <= ports@.len(),
                pv == refs_view(ports@),
                f == vhdl_drive_fn(bfm_inst@),
                result@ == head + lines(pv, i as int, f),
            decreases ports.len() - i,
        {
            let n = ports[i];
            let mut line = Self::tab(2);
            line.append("drive(row, ");
            line.append(bfm_inst);
            line.append(".");
            line.append(n.get_identifier().as_str());
            line.append(");\n");
            proof {
                assert(pv[i as int] == n@);
                assert(line@ =~= f(pv[i as int]));
            }
            result.append(line.as_str());
            i = i + 1;
        }
        result.append(Self::tab(1).as_str());
        result.append("end if;\nend procedure;");
        result
    }

    pub fn sv_to_string_send(ports: &Vec<&Net>, bfm_inst: &str) -> (r: String)
        ensures
            r@ == sv_send(refs_view(ports@), bfm_inst@),
    {
        let ghost pv = refs_view(ports@);
        let ghost f = sv_drive_fn(bfm_inst@);
        let mut result = String::from_str(SV_HEAD_COMMENT);
        result.append("task automatic send(int i);\n");
        result.append(Self::tab(1).as_str());
        result.append("string row;\n");
        result.append(Self::tab(1).as_str());
        result.append("if(!$feof(i)) begin\n");
        result.append(Self::tab(2).as_str());
        result.append("$fgets(row, i);\n");
        result.append(Self::tab(2).as_str());
        result.append("if(row.len() == 0) return;\n");
        let ghost head = result@;
        let mut i: usize = 0;
        while i < ports.len()
            invariant
                i <= ports@.len(),
                pv == refs_view(ports@),
                f == sv_drive_fn(bfm_inst@),
                result@ == head + lines(pv, i as int, f),
            decreases ports.len() - i,
        {
            let n = ports[i];
            let mut line = Self::tab(2);
            line.append("$sscanf(drive(row), \"%b\", ");
            line.append(bfm_inst);
            line.append(".");
            line.append(n.get_identifier().as_str());
            line.append(");\n");
            proof {
                assert(pv[i as int] == n@);
                assert(line@ =~= f(pv[i as int]));
            }
            result.append(line.as_str());
            i = i + 1;
        }
        result.append(Self::tab(1).as_str());
        result.append("end\nendtask");
        result
    }

    pub fn vhdl_to_string_comp(ports: &Vec<&Net>, unit: &str, bfm_inst: &str) -> (r: String)
        ensures
            r@ == vhdl_comp(refs_view(ports@), unit@, bfm_inst@),
    {
        let ghost pv = refs_view(ports@);
        let ghost f = vhdl_check_fn(bfm_inst@);
        let mut result = String::from_str(VHDL_HEAD_COMMENT);
        result.append("procedure compare(file e: text; file o: text) is\n");
        result.append(Self::tab(1).as_str());
        result.append("variable row: line;\n");
        result.append(Self::tab(1).as_str());
        result.append("variable mdl: ");
        result.append(unit);
        result.append("_bfm;\nbegin\n");
        result.append(Self::tab(1).as_str());
        result.append("if endfile(o) = false then\n");
        result.append(Self::tab(2).as_str());
        result.append("readline(o, row);\n");
        let ghost head = result@;
        let mut i: usize = 0;
        while i < ports.len()
            invariant
                i <= ports@.len(),
                pv == refs_view(ports@),
                f == vhdl_check_fn(bfm_inst@),
                result@ == head + lines(pv, i as int, f),
            decreases ports.len() - i,
        {
            let n = ports[i];
            let id = n.get_identifier().as_str();
            let mut line = Self::tab(2);
            line.append("load(row, mdl.");
            line.append(id);
            line.append(");\n");
            line.append(Self::tab(2).as_str());
            line.append("assert_eq(e, ");
            line.append(bfm_inst);
            line.append(".");
            line.append(id);
            line.append(", mdl.");
            line.append(id);
            line.append(", \"");
            line.append(id);
            line.append("\");\n");
            proof {
                assert(pv[i as int] == n@);
                assert(line@ =~= f(pv[i as int]));
            }
            result.append(line.as_str());
            i = i + 1;
        }
        result.append(Self::tab(1).as_str());
        result.append("end if;\nend procedure;");
        result
    }

    pub fn sv_to_string_comp(ports: &Vec<&Net>, _unit: &str, bfm_inst: &str, mdl_inst: &str) -> (r: String)
        ensures
            r@ == sv_comp(refs_view(ports@), bfm_inst@, mdl_inst@),
    {
        let ghost pv = refs_view(ports@);
        let ghost f = sv_check_fn(bfm_inst@, mdl_inst@);
        let mut result = String::from_str(SV_HEAD_COMMENT);
        result.append("task automatic compare(int e, int o);\n");
        result.append(Self::tab(1).as_str());
        result.append("string row, recv, expt;\n");
        result.append(Self::tab(1).as_str());
        result.append("if(!$feof(o)) begin\n");
        result.append(Self::tab(2).as_str());
        result.append("$fgets(row, o);\n");
        result.append(Self::tab(2).as_str());
        result.append("if(row.len() == 0) return;\n");
        let ghost head = result@;
        let mut i: usize = 0;
        while i < ports.len()
            invariant
                i <= ports@.len(),
                pv == refs_view(ports@),
                f == sv_check_fn(bfm_inst@, mdl_inst@),
                result@ == head + lines(pv, i as int, f),
            decreases ports.len() - i,
        {
            let n = ports[i];
            let id = n.get_identifier().as_str();
            let mut line = String::from_str("\n");
            line.append(Self::tab(2).as_str());
            line.append("$sformat(recv, \"%b\", ");
            line.append(bfm_inst);
            line.append(".");
            line.append(id);
            line.append(");\n");
            line.append(Self::tab(2).as_str());
            line.append("$sscanf(load(row), \"%b\", ");
            line.append(mdl_inst);
            line.append(".");
            line.append(id);
            line.append(");\n");
            line.append(Self::tab(2).as_str());
            line.append("$sformat(expt, \"%b\", ");
            line.append(mdl_inst);
            line.append(".");
            line.append(id);
            line.append(");\n");
            line.append(Self::tab(2).as_str());
            line.append("assert_eq(e, recv, expt, \"");
            line.append(id);
            line.append("\");\n");
            proof {
                assert(pv[i as int] == n@);
                assert(line@ =~= f(pv[i as int]));
            }
            result.append(line.as_str());
            i = i + 1;
        }
        result.append(Self::tab(1).as_str());
        result.append("end\nendtask");
        result
    }
    pub fn new(
        json: Unit,
        bfm: bool,
        send: bool,
        comp: bool,
        bfm_inst: Option<Vec<String>>,
        exclude: Vec<String>,
        list: bool,
    ) -> (r: Link)
        ensures
            r.unit()@ == json@,
            r.bfm() == bfm,
            r.send() == send,
            r.comp() == comp,
            r.names() == names_view(bfm_inst),
            r.excluded() == strings_view(exclude@),
            r.list() == list,
    {
        Link { json, bfm, send, comp, bfm_inst, exclude, list }
    }

    pub closed spec fn unit(&self) -> Unit {
        self.json
    }

    pub closed spec fn bfm(&self) -> bool {
        self.bfm
    }

    pub closed spec fn send(&self) -> bool {
        self.send
    }

    pub closed spec fn comp(&self) -> bool {
        self.comp
    }

    pub closed spec fn names(&self) -> Seq<Seq<char>> {
        names_view(self.bfm_inst)
    }

    pub closed spec fn excluded(&self) -> Seq<Seq<char>> {
        strings_view(self.exclude@)
    }

    pub closed spec fn list(&self) -> bool {
        self.list
    }

    /// Whether `id` is on the exclusion list, compared exactly.
    pub fn is_excluded(id: &str, exclude: &Vec<String>) -> (r: bool)
        ensures
            r == strings_view(exclude@).contains(id@),
    {
        let ghost ev = strings_view(exclude@);
        let mut i: usize = 0;
        while i < exclude.len()
            invariant
                i <= exclude@.len(),
                ev == strings_view(exclude@),
                forall|j: int| 0 <= j < i ==> ev[j] != id@,
            decreases exclude.len() - i,
        {
            if same_text(exclude[i].as_str(), id) {
                assert(ev[i as int] == id@);
                return true;
            }
            i = i + 1;
        }
        proof {
            if ev.contains(id@) {
                let j = choose|j: int| 0 <= j < ev.len() && ev[j] == id@;
                assert(ev[j] == id@);
            }
        }
        false
    }

    /// The ports whose identifier is not excluded, in their order.
    pub fn filter_ports<'a>(ports: &'a Vec<Net>, exclude: &Vec<String>) -> (r: Vec<&'a Net>)
        ensures
            refs_view(r@) == filtered(nets_view(ports@), strings_view(exclude@)),
    {
        let ghost pv = nets_view(ports@);
        let ghost p = kept_fn(strings_view(exclude@));
        let mut r: Vec<&'a Net> = Vec::new();
        let mut i: usize = 0;
        while i < ports.len()
            invariant
                i <= ports@.len(),
                pv == nets_view(ports@),
                p == kept_fn(strings_view(exclude@)),
                refs_view(r@) == select(pv, i as int, p),
            decreases ports.len() - i,
        {
            let n = &ports[i];
            let ghost before = r@;
            if !Self::is_excluded(n.get_identifier().as_str(), exclude) {
                r.push(n);
                assert(refs_view(r@) =~= refs_view(before).push(n@));
            }
            assert(pv[i as int] == n@);
            i = i + 1;
        }
        r
    }

    /// The ports that flow into the unit, in their order.
    pub fn select_inputs<'a>(ports: &Vec<&'a Net>) -> (r: Vec<&'a Net>)
        ensures
            refs_view(r@) == select_all(refs_view(ports@), input_fn()),
    {
        let ghost pv = refs_view(ports@);
        let mut r: Vec<&'a Net> = Vec::new();
        let mut i: usize = 0;
        while i < ports.len()
            invariant
                i <= ports@.len(),
                pv == refs_view(ports@),
                refs_view(r@) == select(pv, i as int, input_fn()),
            decreases ports.len() - i,
        {
            let n = ports[i];
            let ghost before = r@;
            if n.is_input() {
                r.push(n);
                assert(refs_view(r@) =~= refs_view(before).push(n@));
            }
            assert(pv[i as int] == n@);
            i = i + 1;
        }
        r
    }

    /// The ports that flow out of the unit, in their order.
    pub fn select_outputs<'a>(ports: &Vec<&'a Net>) -> (r: Vec<&'a Net>)
        ensures
            refs_view(r@) == select_all(refs_view(ports@), output_fn()),
    {
        let ghost pv = refs_view(ports@);
        let mut r: Vec<&'a Net> = Vec::new();
        let mut i: usize = 0;
        while i < ports.len()
            invariant
                i <= ports@.len(),
                pv == refs_view(ports@),
                refs_view(r@) == select(pv, i as int, output_fn()),
            decreases ports.len() - i,
        {
            let n = ports[i];
            let ghost before = r@;
            if n.is_output() {
                r.push(n);
                assert(refs_view(r@) =~= refs_view(before).push(n@));
            }
            assert(pv[i as int] == n@);
            i = i + 1;
        }
        r
    }
    /// The artifacts asked for, in their fixed order. The Verilog dialect is
    /// not implemented: asking it for any artifact fails.
    pub fn artifacts(&self) -> (r: Result<Vec<String>, Error>)
        ensures
            if self.unit()@.language == Language::Verilog && wants_any(self.bfm(), self.names(), self.send(), self.comp()) {
                r matches Err(Error::UnimplementedLang(m)) && m@ == "verilog"@
            } else {
                r matches Ok(v) && strings_view(v@) == sections(
                    self.unit()@,
                    self.bfm(),
                    self.names(),
                    self.send(),
                    self.comp(),
                    self.excluded(),
                )
            },
    {
        let lang = *self.json.get_language();
        let names_len: usize = match &self.bfm_inst {
            Some(v) => v.len(),
            None => 0,
        };
        if lang == Language::Verilog && (self.bfm || names_len > 0 || self.send || self.comp) {
            return Err(Error::UnimplementedLang("verilog".to_owned()));
        }
        let ghost u = self.json@;
        let ports = Self::filter_ports(self.json.get_ports(), &self.exclude);
        let ghost fp = filtered(u.ports, self.excluded());
        let mut out: Vec<String> = Vec::new();
        if self.bfm {
            let text = match lang {
                Language::Vhdl => Self::vhdl_to_string_bfm(&ports, self.json.get_identifier().as_str()),
                _ => Self::sv_to_string_bfm(&ports, self.json.get_generics(), self.json.get_identifier().as_str()),
            };
            out.push(text);
        }
        let ghost names = self.names();
        let ghost start = strings_view(out@);
        assert(start == (if self.bfm { seq![declaration(u, fp)] } else { Seq::<Seq<char>>::empty() }));
        match &self.bfm_inst {
            Some(insts) => {
                let mut i: usize = 0;
                while i < insts.len()
                    invariant
                        i <= insts@.len(),
                        names == strings_view(insts@),
                        u == self.json@,
                        lang == u.language,
                        strings_view(out@) == start + instances(u, names, i as int),
                    decreases insts.len() - i,
                {
                    let text = match lang {
                        Language::Vhdl => Self::vhdl_to_string_bfm_inst(
                            self.json.get_identifier().as_str(),
                            insts[i].as_str(),
                        ),
                        _ => Self::sv_to_string_bfm_inst(
                            self.json.get_identifier().as_str(),
                            self.json.get_generics(),
                            insts[i].as_str(),
                        ),
                    };
                    let ghost before = out@;
                    out.push(text);
                    proof {
                        assert(names[i as int] == insts@[i as int]@);
                        assert(strings_view(out@) =~= strings_view(before).push(text@));
                        assert(strings_view(out@) =~= start + instances(u, names, i + 1));
                    }
                    i = i + 1;
                }
            },
            None => {
                assert(strings_view(out@) =~= start + instances(u, names, 0));
            },
        }
        let ghost mid = strings_view(out@);
        assert(mid == start + instances(u, names, names.len() as int));
        if self.send {
            let inputs = Self::select_inputs(&ports);
            let text = match lang {
                Language::Vhdl => Self::vhdl_to_string_send(&inputs, "bfm"),
                _ => Self::sv_to_string_send(&inputs, "bfm"),
            };
            let ghost before = out@;
            out.push(text);
            assert(strings_view(out@) =~= strings_view(before).push(text@));
        }
        let ghost mid2 = strings_view(out@);
        assert(mid2 =~= mid + (if self.send { seq![stimulus(u, fp)] } else { Seq::<Seq<char>>::empty() }));
        if self.comp {
            let outputs = Self::select_outputs(&ports);
            let text = match lang {
                Language::Vhdl => Self::vhdl_to_string_comp(&outputs, self.json.get_identifier().as_str(), "bfm"),
                _ => Self::sv_to_string_comp(&outputs, self.json.get_identifier().as_str(), "bfm", "mdl"),
            };
            let ghost before = out@;
            out.push(text);
            assert(strings_view(out@) =~= strings_view(before).push(text@));
        }
        assert(strings_view(out@) =~= mid2 + (if self.comp { seq![comparison(u, fp)] } else { Seq::<Seq<char>>::empty() }));
        assert(strings_view(out@) =~= sections(u, self.bfm, names, self.send, self.comp, self.excluded()));
        Ok(out)
    }
    /// Prints the artifacts as the command line shows them: each followed by a
    /// line break, with a blank line between two.
    pub fn render(&self) -> (r: Result<String, Error>)
        ensures
            if self.unit()@.language == Language::Verilog && wants_any(self.bfm(), self.names(), self.send(), self.comp()) {
                r matches Err(Error::UnimplementedLang(m)) && m@ == "verilog"@
            } else {
                r matches Ok(t) && ({
                    let secs = sections(self.unit()@, self.bfm(), self.names(), self.send(), self.comp(), self.excluded());
                    t@ == printed(secs, secs.len() as int)
                })
            },
    {
        let secs = match self.artifacts() {
            Ok(v) => v,
            Err(e) => return Err(e),
        };
        let ghost sv = strings_view(secs@);
        let mut out = String::new();
        let mut i: usize = 0;
        while i < secs.len()
            invariant
                i <= secs@.len(),
                sv == strings_view(secs@),
                out@ == printed(sv, i as int),
            decreases secs.len() - i,
        {
            let ghost before = out@;
            if i > 0 {
                out.append("\n");
            }
            out.append(secs[i].as_str());
            out.append("\n");
            proof {
                assert(sv[i as int] == secs@[i as int]@);
                assert(out@ =~= printed(sv, i + 1));
            }
            i = i + 1;
        }
        Ok(out)
    }

    /// The identifiers of the nets, each after a space.
    fn id_list(nets: &Vec<&Net>) -> (r: String)
        ensures
            r@ == id_list(refs_view(nets@), nets@.len() as int),
    {
        let ghost nv = refs_view(nets@);
        let mut out = String::new();
        let mut i: usize = 0;
        while i < nets.len()
            invariant
                i <= nets@.len(),
                nv == refs_view(nets@),
                out@ == id_list(nv, i as int),
            decreases nets.len() - i,
        {
            out.append(" ");
            out.append(nets[i].get_identifier().as_str());
            proof {
                assert(nv[i as int] == nets@[i as int]@);
                assert(out@ =~= id_list(nv, i + 1));
            }
            i = i + 1;
        }
        out
    }

    /// Lists the order of the input and of the output vectors, after exclusion.
    pub fn port_order(&self) -> (r: String)
        ensures
            r@ == vector_order(filtered(self.unit()@.ports, self.excluded())),
    {
        let ports = Self::filter_ports(self.json.get_ports(), &self.exclude);
        let inputs = Self::select_inputs(&ports);
        let outputs = Self::select_outputs(&ports);
        let mut out = String::from_str("input vectors order:\n ");
        out.append(Self::id_list(&inputs).as_str());
        out.append("\n\n");
        out.append("output vectors order:\n ");
        out.append(Self::id_list(&outputs).as_str());
        out.append("\n\n");
        out
    }

    /// What the link operation prints: the vector order when listing is
    /// asked for, else the artifacts.
    pub fn output(&self) -> (r: Result<String, Error>)
        ensures
            if self.list() {
                r matches Ok(t) && t@ == vector_order(filtered(self.unit()@.ports, self.excluded()))
            } else if self.unit()@.language == Language::Verilog && wants_any(self.bfm(), self.names(), self.send(), self.comp()) {
                r matches Err(Error::UnimplementedLang(m)) && m@ == "verilog"@
            } else {
                r matches Ok(t) && ({
                    let secs = sections(self.unit()@, self.bfm(), self.names(), self.send(), self.comp(), self.excluded());
                    t@ == printed(secs, secs.len() as int)
                })
            },
    {
        if self.list {
            Ok(self.port_order())
        } else {
            self.render()
        }
    }

    /// Computes the number of bytes of the longest identifier.
    pub fn _longest_id_len(ids: Vec<&String>) -> (r: usize)
        ensures
            r == longest(ids@.map_values(|s: &String| s@), ids@.len() as int),
    {
        let ghost iv = ids@.map_values(|s: &String| s@);
        let mut best: usize = 0;
        let mut i: usize = 0;
        while i < ids.len()
            invariant
                i <= ids@.len(),
                iv == ids@.map_values(|s: &String| s@),
                best == longest(iv, i as int),
            decreases ids.len() - i,
        {
            let len = ids[i].as_str().len();
            assert(iv[i as int] == ids@[i as int]@);
            if len > best {
                best = len;
            }
            i = i + 1;
        }
        best
    }

    /// Builds the indentation of `n` levels.
    pub fn tab(n: usize) -> (r: String)
        ensures
            r@ == indent(n as nat),
    {
        let mut result = String::new();
        let mut i: usize = 0;
        while i < n
            invariant
                i <= n,
                result@ == indent(i as nat),
            decreases n - i,
        {
            result.append("  ");
            i = i + 1;
        }
        result
    }
}

} // verus!
