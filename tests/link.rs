use verb::error::Error;
use verb::link::Link;
use verb::unit::{Language, Net, Unit};

fn net(id: &str, dtype: &str, mode: &str) -> Net {
    Net::with(id.to_string(), dtype.to_string(), mode.to_string(), None)
}

fn adder(language: &str, generics: Vec<Net>) -> Unit {
    Unit::from_parts(
        "adder".to_string(),
        generics,
        vec![net("cin", "logic", "in"), net("sum", "logic", "out")],
        vec!["rtl".to_string()],
        language,
    )
    .unwrap()
}

const SV_TASK: &str = "// This SystemVerilog task is automatically @generated by Verb.\n// It is not intended for manual editing.\n";
const SV_INTERFACE: &str = "// This interface is automatically @generated by Verb.\n// It is not intended for manual editing.\n";
const VHDL_PROC: &str = "-- This procedure is automatically @generated by Verb.\n-- It is not intended for manual editing.\n";
const VHDL_RECORD: &str = "-- This record is automatically @generated by Verb.\n-- It is not intended for manual editing.\n";

#[test]
fn end_to_end_systemverilog_three_artifacts() {
    let link = Link::new(adder("systemverilog", vec![]), true, true, true, None, vec![], false);
    let decl = format!("{}interface adder_bfm;\n  logic cin;\n  logic sum;\nendinterface", SV_INTERFACE);
    let send = format!(
        "{}task automatic send(int i);\n  string row;\n  if(!$feof(i)) begin\n    $fgets(row, i);\n    if(row.len() == 0) return;\n    $sscanf(drive(row), \"%b\", bfm.cin);\n  end\nendtask",
        SV_TASK
    );
    let comp = format!(
        "{}task automatic compare(int e, int o);\n  string row, recv, expt;\n  if(!$feof(o)) begin\n    $fgets(row, o);\n    if(row.len() == 0) return;\n\n    $sformat(recv, \"%b\", bfm.sum);\n    $sscanf(load(row), \"%b\", mdl.sum);\n    $sformat(expt, \"%b\", mdl.sum);\n    assert_eq(e, recv, expt, \"sum\");\n  end\nendtask",
        SV_TASK
    );
    assert_eq!(link.artifacts().unwrap(), vec![decl.clone(), send.clone(), comp.clone()]);
    assert_eq!(link.render().unwrap(), format!("{}\n\n{}\n\n{}\n", decl, send, comp));
}

#[test]
fn vhdl_artifacts_and_instances() {
    let link = Link::new(
        adder("VHDL", vec![]),
        true,
        true,
        true,
        Some(vec!["u0".to_string(), "u1".to_string()]),
        vec![],
        false,
    );
    let out = link.artifacts().unwrap();
    assert_eq!(out.len(), 5);
    assert_eq!(out[0], format!("{}type adder_bfm is record\n  cin: logic;\n  sum: logic;\nend record;", VHDL_RECORD));
    assert_eq!(out[1], "signal u0: adder_bfm;");
    assert_eq!(out[2], "signal u1: adder_bfm;");
    assert_eq!(
        out[3],
        format!(
            "{}procedure send(file i: text) is\n  variable row: line;\nbegin\n  if endfile(i) = false then\n    readline(i, row);\n    drive(row, bfm.cin);\n  end if;\nend procedure;",
            VHDL_PROC
        )
    );
    assert_eq!(
        out[4],
        format!(
            "{}procedure compare(file e: text; file o: text) is\n  variable row: line;\n  variable mdl: adder_bfm;\nbegin\n  if endfile(o) = false then\n    readline(o, row);\n    load(row, mdl.sum);\n    assert_eq(e, bfm.sum, mdl.sum, \"sum\");\n  end if;\nend procedure;",
            VHDL_PROC
        )
    );
}

#[test]
fn systemverilog_parameters() {
    let width = Net::with("WIDTH".to_string(), "integer".to_string(), "parameter".to_string(), Some("16".to_string()));
    let depth = Net::with("DEPTH".to_string(), "integer".to_string(), "parameter".to_string(), None);
    let generics = vec![width, depth];
    assert_eq!(
        Link::sv_generate_param_decl(&generics),
        " #(\n  parameter integer WIDTH = 16,\n  parameter integer DEPTH\n)"
    );
    assert_eq!(Link::sv_generate_param_inst(&generics), " #(\n  .WIDTH(WIDTH),\n  .DEPTH(DEPTH)\n)");
    assert_eq!(Link::sv_generate_param_inst(&vec![]), "");
    assert_eq!(Link::sv_to_string_bfm_inst("add", &vec![], "bfm"), "add_bfm bfm();");
    let link = Link::new(adder("systemverilog", generics), false, false, false, Some(vec!["b".to_string()]), vec![], false);
    assert_eq!(
        link.artifacts().unwrap(),
        vec!["adder_bfm #(\n  .WIDTH(WIDTH),\n  .DEPTH(DEPTH)\n) b();".to_string()]
    );
}

#[test]
fn exclusion_is_exact_and_keeps_order() {
    let ports = vec![net("a", "bit", "in"), net("B", "bit", "in"), net("c", "bit", "out"), net("d", "bit", "in")];
    let kept = Link::filter_ports(&ports, &vec!["b".to_string(), "c".to_string(), "zz".to_string()]);
    let ids: Vec<&String> = kept.iter().map(|n| n.get_identifier()).collect();
    assert_eq!(ids, vec!["a", "B", "d"]);
    assert_eq!(kept.len(), ports.len() - 1);
    assert_eq!(Link::filter_ports(&ports, &vec![]).len(), 4);
    assert!(Link::is_excluded("c", &vec!["c".to_string()]));
    assert!(!Link::is_excluded("C", &vec!["c".to_string()]));
}

#[test]
fn port_order_lists_inputs_then_outputs() {
    let unit = Unit::from_parts(
        "u".to_string(),
        vec![],
        vec![net("x", "bit", "in"), net("io", "bit", "inout"), net("y", "bit", "out"), net("z", "bit", "in")],
        vec![],
        "vhdl",
    )
    .unwrap();
    let link = Link::new(unit, true, false, false, None, vec!["z".to_string()], true);
    assert_eq!(link.port_order(), "input vectors order:\n  x\n\noutput vectors order:\n  y\n\n");
    assert_eq!(link.output().unwrap(), link.port_order());
}

#[test]
fn inout_ports_are_left_out_of_procedures() {
    let unit = Unit::from_parts(
        "u".to_string(),
        vec![],
        vec![net("io", "bit", "inout")],
        vec![],
        "systemverilog",
    )
    .unwrap();
    let link = Link::new(unit, false, true, false, None, vec![], false);
    let out = link.artifacts().unwrap();
    assert!(!out[0].contains("io"));
}

#[test]
fn verilog_is_not_implemented() {
    let link = Link::new(adder("verilog", vec![]), true, false, false, None, vec![], false);
    assert_eq!(link.artifacts().unwrap_err(), Error::UnimplementedLang("verilog".to_string()));
    assert_eq!(link.render().unwrap_err(), Error::UnimplementedLang("verilog".to_string()));
    let quiet = Link::new(adder("Verilog", vec![]), false, false, false, None, vec![], false);
    assert_eq!(quiet.render().unwrap(), "");
    assert_eq!(*adder("Verilog", vec![]).get_language(), Language::Verilog);
}

#[test]
fn tab_and_longest_identifier() {
    assert_eq!(Link::tab(0), "");
    assert_eq!(Link::tab(3), "      ");
    let a = "ab".to_string();
    let b = "é12".to_string();
    assert_eq!(Link::_longest_id_len(vec![&a, &b]), 4);
    assert_eq!(Link::_longest_id_len(vec![]), 0);
}
