use verb::generic::Generic;
use verb::unit::{Net, Unit};
use verb::vertex::link::Link;
use verb::vertex::model::Model;

fn net(id: &str, mode: &str) -> Net {
    Net::with(id.to_string(), "std_logic".to_string(), mode.to_string(), None)
}

#[test]
fn vertex_snippets() {
    let link = Link::new(
        "adder".to_string(),
        vec![net("cin", "IN"), net("skip", "in"), net("sum", "Out"), net("io", "inout")],
        true,
        true,
        true,
        vec!["skip".to_string()],
        false,
    );
    let bfm = "type adder_bfm is record\n  cin: std_logic;\n  sum: std_logic;\n  io: std_logic;\nend record;\n\nsignal bfm: adder_bfm;";
    let send = "procedure send(file i: text) is\n  variable row: line;\nbegin\n  if endfile(i) = false then\n    readline(i, row);\n    drive(row, bfm.cin);\n  end if;\nend procedure;";
    let comp = "procedure compare(file e: text; file o: text) is\n  variable row: line;\n  variable expct: adder_bfm;\nbegin\n  if endfile(o) = false then\n    readline(o, row);\n    load(row, expct.sum);\n    assert_eq(e, bfm.sum, expct.sum, \"sum\");\n  end if;\nend procedure;";
    assert_eq!(link.output(), format!("{}\n\n{}\n\n{}\n", bfm, send, comp));
}

#[test]
fn vertex_port_order() {
    let link = Link::new(
        "u".to_string(),
        vec![net("a", "in"), net("b", "OUT"), net("c", "In")],
        false,
        false,
        false,
        vec![],
        true,
    );
    assert_eq!(link.output(), "input vectors order:\n  a c\n\noutput vectors order:\n  b\n\n");
    let a = "abc".to_string();
    assert_eq!(Link::longest_id_len(vec![&a]), 3);
}

#[test]
fn vertex_model_settings() {
    let unit = Unit::from_parts("u".to_string(), vec![], vec![], vec![], "vhdl").unwrap();
    let unit2 = Unit::from_parts("u".to_string(), vec![], vec![], vec![], "vhdl").unwrap();
    let g = Generic::from_str("N=1").unwrap();
    let model = Model::new("m.py".to_string(), unit, unit2, vec![g], None, Some(12), vec![]);
    let s = model.settings("d".to_string(), "t".to_string(), "[]".to_string());
    assert_eq!(s[3], ("VERTEX_FDI_MAX_ITERS".to_string(), "12".to_string()));
    let unit3 = Unit::from_parts("u".to_string(), vec![], vec![], vec![], "vhdl").unwrap();
    let unit4 = Unit::from_parts("u".to_string(), vec![], vec![], vec![], "vhdl").unwrap();
    let none = Model::new("m.py".to_string(), unit3, unit4, vec![], None, None, vec![]);
    let s = none.settings("d".to_string(), "t".to_string(), "[]".to_string());
    assert_eq!(s[0], ("VERTEX_FDI_DUT".to_string(), "d".to_string()));
    assert_eq!(s[3], ("VERTEX_FDI_MAX_ITERS".to_string(), "null".to_string()));
}
