use verb::error::Error;
use verb::generic::{Generic, Generics};
use verb::model::Model;
use verb::unit::{Language, Net, Unit};

fn generic(id: &str, default: &str) -> Net {
    Net::with(id.to_string(), "integer".to_string(), "in".to_string(), Some(default.to_string()))
}

fn testbench(language: &str) -> Unit {
    Unit::from_parts("tb".to_string(), vec![generic("A", "1"), generic("B", "2")], vec![], vec![], language).unwrap()
}

fn over(s: &str) -> Generic {
    Generic::from_str(s).unwrap()
}

#[test]
fn inout_is_neither_input_nor_output() {
    let n = Net::with("x".to_string(), "bit".to_string(), "inout".to_string(), None);
    assert!(!n.is_input());
    assert!(!n.is_output());
    let i = Net::with("x".to_string(), "bit".to_string(), "in".to_string(), None);
    assert!(i.is_input() && !i.is_output());
    let o = Net::with("x".to_string(), "bit".to_string(), "out".to_string(), None);
    assert!(o.is_output() && !o.is_input());
    let b = Net::with("x".to_string(), "bit".to_string(), "buffer".to_string(), None);
    assert!(!b.is_input() && !b.is_output());
}

#[test]
fn override_matching_depends_on_dialect() {
    let mut vhdl = testbench("vhdl");
    assert_eq!(vhdl.apply_overrides(&vec![over("a=9")]), Ok(()));
    assert_eq!(vhdl.get_generics()[0].get_default(), Some(&"9".to_string()));
    assert_eq!(vhdl.get_generics()[1].get_default(), Some(&"2".to_string()));

    let mut sv = testbench("systemverilog");
    assert_eq!(sv.apply_overrides(&vec![over("a=9")]), Err(Error::GenericNotFound("a".to_string())));
    assert_eq!(sv.get_generics()[0].get_default(), Some(&"1".to_string()));
}

#[test]
fn partial_application_is_kept_on_failure() {
    let mut tb = testbench("systemverilog");
    let result = tb.apply_overrides(&vec![over("A=5"), over("C=7")]);
    assert_eq!(result, Err(Error::GenericNotFound("C".to_string())));
    assert_eq!(tb.get_generics()[0].get_default(), Some(&"5".to_string()));
    assert_eq!(tb.get_generics()[1].get_default(), Some(&"2".to_string()));
}

#[test]
fn first_matching_generic_is_overridden() {
    let mut tb = Unit::from_parts(
        "tb".to_string(),
        vec![generic("W", "1"), generic("w", "2"), generic("W", "3")],
        vec![],
        vec![],
        "VHDL",
    )
    .unwrap();
    assert_eq!(tb.apply_overrides(&vec![over("w=8"), over("W=9")]), Ok(()));
    let defaults: Vec<Option<&String>> = tb.get_generics().iter().map(|n| n.get_default()).collect();
    assert_eq!(defaults, vec![Some(&"9".to_string()), Some(&"2".to_string()), Some(&"3".to_string())]);
}

#[test]
fn generic_splits_on_first_equal_sign() {
    let g = Generic::from_str("KEY=a=b").unwrap();
    assert_eq!(g.key(), "KEY");
    assert_eq!(g.value(), "a=b");
    assert_eq!(g.split(), ("KEY".to_string(), "a=b".to_string()));
    assert_eq!(Generic::from_str("=").unwrap(), Generic::with(String::new(), String::new()));
    assert_eq!(Generic::from_str("KEY").unwrap_err(), Error::GenericParseMissingEq);
    let pair = Generic::from(("k".to_string(), "v".to_string()));
    assert_eq!(pair.key(), "k");
    assert_eq!(Generics::from(vec![pair]).items().len(), 1);
}

#[test]
fn language_names_round_trip() {
    for l in [Language::Vhdl, Language::Verilog, Language::SystemVerilog] {
        assert_eq!(Language::from_str(&l.to_string()).unwrap(), l);
    }
    assert_eq!(Language::from_str("SystemVerilog").unwrap(), Language::SystemVerilog);
    assert_eq!(Language::from_str("Vhdl").unwrap(), Language::Vhdl);
    assert_eq!(Language::from_str("Verilog").unwrap(), Language::Verilog);
    assert_eq!(Language::SystemVerilog.to_string(), "systemverilog");
    assert_eq!(Language::Vhdl.to_string(), "vhdl");
    assert_eq!(Language::from_str("C++").unwrap_err(), Error::UnsupportedLang("C++".to_string()));
    assert_eq!(Language::from_lowered("vhdl", "VHDL").unwrap(), Language::Vhdl);
    assert_eq!(Language::from_lowered("VHDL", "VHDL").unwrap_err(), Error::UnsupportedLang("VHDL".to_string()));
}

#[test]
fn unit_parts_are_kept() {
    let unit = Unit::from_parts(
        "adder".to_string(),
        vec![generic("N", "4")],
        vec![Net::with("cin".to_string(), "logic".to_string(), "in".to_string(), None)],
        vec!["rtl".to_string()],
        "SYSTEMVERILOG",
    )
    .unwrap();
    assert_eq!(unit.get_identifier(), "adder");
    assert_eq!(*unit.get_language(), Language::SystemVerilog);
    assert_eq!(unit.get_architectures(), &vec!["rtl".to_string()]);
    assert_eq!(unit.get_ports()[0].get_identifier(), "cin");
    assert_eq!(unit.get_ports()[0].get_type(), "logic");
    assert_eq!(unit.get_ports()[0].get_mode(), "in");
    assert_eq!(unit.get_ports()[0].get_default(), None);
    assert_eq!(unit.get_generics()[0].get_default(), Some(&"4".to_string()));
    let err = Unit::from_parts("x".to_string(), vec![], vec![], vec![], "ada").unwrap_err();
    assert_eq!(err, Error::UnsupportedLang("ada".to_string()));
}

#[test]
fn identifier_matching() {
    let n = Net::with("Clk".to_string(), "bit".to_string(), "in".to_string(), None);
    assert!(n.is_identifier("CLK", true));
    assert!(n.is_identifier("clk", true));
    assert!(!n.is_identifier("clk", false));
    assert!(n.is_identifier("Clk", false));
    assert!(Net::forms_match("Clk", "clk", "CLK", "CLK", true));
    assert!(!Net::forms_match("Clk", "clk", "CLK", "CLK", false));
    assert!(!Net::forms_match("A", "B", "A", "B", true));
    let mut m = Net::with("x".to_string(), "bit".to_string(), "in".to_string(), None);
    m.set_default("7".to_string());
    assert_eq!(m.get_default(), Some(&"7".to_string()));
}

#[test]
fn lowerize_only_touches_the_first_letter() {
    assert_eq!(Error::lowerize("Expected VALUE".to_string()), "expected VALUE");
    assert_eq!(Error::lowerize("already".to_string()), "already");
    assert_eq!(Error::lowerize(String::new()), "");
    assert_eq!(Error::lowerize("Éclair".to_string()), "éclair");
    assert_eq!(Error::lowerize("Σ".to_string()), "σ");
    assert_eq!(Error::lowerize_from("é", "Éclair"), "éclair");
    assert_eq!(Error::lowerize_from("x", ""), "");
    assert_eq!(
        Error::invalid_json("EOF while parsing".to_string()),
        Error::InvalidJson("eOF while parsing".to_string())
    );
    assert_eq!(
        verb::vertex::error::Error::invalid_json("Missing field".to_string()),
        verb::vertex::error::Error::InvalidJson("missing field".to_string())
    );
    assert_eq!(verb::vertex::error::Error::lowerize("X".to_string()), "x");
    assert_eq!(verb::vertex::error::Error::lowerize("Ärger".to_string()), "ärger");
}

#[test]
fn model_settings_and_exit_status() {
    let mut model = Model::new(
        "./run".to_string(),
        testbench("vhdl"),
        testbench("vhdl"),
        None,
        vec![over("b=3")],
        Some("cov.txt".to_string()),
        Some(42),
        Some(-5),
        vec![],
    );
    assert_eq!(model.apply_generics(), Ok(()));
    assert_eq!(model.get_tb().get_generics()[1].get_default(), Some(&"3".to_string()));
    assert_eq!(model.get_dut().get_generics()[1].get_default(), Some(&"2".to_string()));
    let settings = model.settings("{dut}".to_string(), "{tb}".to_string());
    let expected: Vec<(String, String)> = vec![
        ("VERB_DUT", "{dut}"),
        ("VERB_TB", "{tb}"),
        ("VERB_LOOP_LIMIT", "-5"),
        ("VERB_RAND_SEED", "42"),
        ("VERB_COVERAGE_FILE", "cov.txt"),
    ]
    .into_iter()
    .map(|(k, v)| (k.to_string(), v.to_string()))
    .collect();
    assert_eq!(settings, expected);
    assert_eq!(Model::exit_status(Some(0)), Ok(()));
    assert_eq!(Model::exit_status(Some(3)), Err(Error::ChildProcErrorCode(3)));
    assert_eq!(Model::exit_status(None), Err(Error::ChildProcTerminated));
}

#[test]
fn model_fails_on_unknown_generic() {
    let mut model = Model::new(
        "./run".to_string(),
        testbench("vhdl"),
        testbench("systemverilog"),
        None,
        vec![over("B=3"), over("b=4")],
        None,
        None,
        None,
        vec![],
    );
    assert_eq!(model.apply_generics(), Err(Error::GenericNotFound("b".to_string())));
    assert_eq!(model.get_tb().get_generics()[1].get_default(), Some(&"3".to_string()));
    assert_eq!(model.settings("d".to_string(), "t".to_string()).len(), 2);
}

#[test]
fn generics_can_be_changed_in_place() {
    let mut tb = testbench("vhdl");
    tb.get_generics_mut()[1].set_default("8".to_string());
    tb.get_generics_mut().push(generic("C", "0"));
    assert_eq!(tb.get_generics().len(), 3);
    assert_eq!(tb.get_generics()[1].get_default(), Some(&"8".to_string()));
    assert_eq!(tb.get_generics()[2].get_identifier(), "C");
}

#[test]
fn settings_write_extreme_numbers() {
    for (limit, seed) in [(isize::MIN, usize::MAX), (0, 0), (isize::MAX, 10), (-10, 9)] {
        let model = Model::new(
            "./run".to_string(),
            testbench("vhdl"),
            testbench("vhdl"),
            None,
            vec![],
            None,
            Some(seed),
            Some(limit),
            vec![],
        );
        let settings = model.settings("d".to_string(), "t".to_string());
        assert_eq!(settings[2], ("VERB_LOOP_LIMIT".to_string(), format!("{}", limit)));
        assert_eq!(settings[3], ("VERB_RAND_SEED".to_string(), format!("{}", seed)));
    }
}
