use crate::link::{id_list, lines, longest, printed, refs_view, select, select_all, strings_view, filtered};
use crate::text::{eq_ascii_folded, eq_ignore_ascii_case};
use crate::unit::{Net, NetView, nets_view};
use vstd::prelude::*;
use vstd::string::*;

verus! {

/// Whether a net's mode is `mode`, ignoring ASCII case.
pub open spec fn mode_is_fn(mode: Seq<char>) -> spec_fn(NetView) -> bool {
    |n: NetView| eq_ascii_folded(n.mode, mode)
}

/// One field of the record.
pub open spec fn field_line(n: NetView) -> Seq<char> {
    "  "@ + n.identifier + ": "@ + n.dtype + ";\n"@
}

/// `field_line` as a function value.
pub open spec fn field_line_fn() -> spec_fn(NetView) -> Seq<char> {
    |n: NetView| field_line(n)
}

/// The record of the ports, followed by one signal of it.
pub open spec fn bfm_text(ports: Seq<NetView>, unit: Seq<char>, inst: Seq<char>) -> Seq<char> {
    "type "@ + unit + "_bfm is record\n"@ + lines(ports, ports.len() as int, field_line_fn())
        + "end record;\n\nsignal "@ + inst + ": "@ + unit + "_bfm;"@
}

/// The statement that drives one port.
pub open spec fn drive_line(inst: Seq<char>, n: NetView) -> Seq<char> {
    "    drive(row, "@ + inst + "."@ + n.identifier + ");\n"@
}

/// `drive_line` as a function value.
pub open spec fn drive_line_fn(inst: Seq<char>) -> spec_fn(NetView) -> Seq<char> {
    |n: NetView| drive_line(inst, n)
}

/// The procedure that drives the ports from one line of input.
pub open spec fn send_text(ports: Seq<NetView>, inst: Seq<char>) -> Seq<char> {
    "procedure send(file i: text) is\n  variable row: line;\nbegin\n  if endfile(i) = false then\n    readline(i, row);\n"@
        + lines(ports, ports.len() as int, drive_line_fn(inst)) + "  end if;\nend procedure;"@
}

/// The statements that load and compare one port.
pub open spec fn compare_lines(inst: Seq<char>, n: NetView) -> Seq<char> {
    "    load(row, expct."@ + n.identifier + ");\n"@ + "    assert_eq(e, "@ + inst + "."@ + n.identifier
        + ", expct."@ + n.identifier + ", \""@ + n.identifier + "\");\n"@
}

/// `compare_lines` as a function value.
pub open spec fn compare_lines_fn(inst: Seq<char>) -> spec_fn(NetView) -> Seq<char> {
    |n: NetView| compare_lines(inst, n)
}

/// The procedure that compares the ports against one line of expected output.
pub open spec fn comp_text(ports: Seq<NetView>, unit: Seq<char>, inst: Seq<char>) -> Seq<char> {
    "procedure compare(file e: text; file o: text) is\n  variable row: line;\n  variable expct: "@ + unit
        + "_bfm;\nbegin\n  if endfile(o) = false then\n    readline(o, row);\n"@
        + lines(ports, ports.len() as int, compare_lines_fn(inst)) + "  end if;\nend procedure;"@
}

/// The snippets asked for, in order: record, send, compare.
pub open spec fn snippets(
    unit: Seq<char>,
    ports: Seq<NetView>,
    bfm: bool,
    send: bool,
    comp: bool,
) -> Seq<Seq<char>> {
    (if bfm { seq![bfm_text(ports, unit, "bfm"@)] } else { Seq::empty() })
        + (if send { seq![send_text(select_all(ports, mode_is_fn("in"@)), "bfm"@)] } else { Seq::empty() })
        + (if comp { seq![comp_text(select_all(ports, mode_is_fn("out"@)), unit, "bfm"@)] } else { Seq::empty() })
}

/// The order of input and output vectors, by exact mode.
pub open spec fn vector_order(ports: Seq<NetView>) -> Seq<char> {
    let ins = select_all(ports, mode_is_fn("in"@));
    let outs = select_all(ports, mode_is_fn("out"@));
    "input vectors order:\n "@ + id_list(ins, ins.len() as int) + "\n\n"@
        + "output vectors order:\n "@ + id_list(outs, outs.len() as int) + "\n\n"@
}

/// Generates VHDL snippets that connect a unit to a software model.
pub struct Link {
    identifier: String,
    ports: Vec<Net>,
    bfm: bool,
    send: bool,
    comp: bool,
    exclude: Vec<String>,
    list: bool,
}

impl Link {
    pub fn new(
        identifier: String,
        ports: Vec<Net>,
        bfm: bool,
        send: bool,
        comp: bool,
        exclude: Vec<String>,
        list: bool,
    ) -> (r: Link)
        ensures
            r.unit() == identifier@,
            r.port_views() == nets_view(ports@),
            r.bfm() == bfm,
            r.send() == send,
            r.comp() == comp,
            r.excluded() == strings_view(exclude@),
            r.list() == list,
    {
        Link { identifier, ports, bfm, send, comp, exclude, list }
    }

    pub closed spec fn unit(&self) -> Seq<char> {
        self.identifier@
    }

    pub closed spec fn port_views(&self) -> Seq<NetView> {
        nets_view(self.ports@)
    }

    pub closed spec fn bfm(&self) -> bool {
        self.bfm
    }

    pub closed spec fn send(&self) -> bool {
        self.send
    }

    pub closed spec fn comp(&self) -> bool {
        self.comp
    }

    pub closed spec fn excluded(&self) -> Seq<Seq<char>> {
        strings_view(self.exclude@)
    }

    pub closed spec fn list(&self) -> bool {
        self.list
    }

    pub fn to_string_bfm(ports: &Vec<&Net>, unit: &str, bfm_inst: &str) -> (r: String)
        ensures
            r@ == bfm_text(refs_view(ports@), unit@, bfm_inst@),
    {
        let ghost pv = refs_view(ports@);
        let mut result = String::from_str("type ");
        result.append(unit);
        result.append("_bfm is record\n");
        let ghost head = result@;
        let mut i: usize = 0;
        while i < ports.len()
            invariant
                i <= ports@.len(),
                pv == refs_view(ports@),
                result@ == head + lines(pv, i as int, field_line_fn()),
            decreases ports.len() - i,
        {
            let n = ports[i];
            let mut line = String::from_str("  ");
            line.append(n.get_identifier().as_str());
            line.append(": ");
            line.append(n.get_type().as_str());
            line.append(";\n");
            proof {
                assert(pv[i as int] == n@);
                assert(line@ =~= field_line_fn()(pv[i as int]));
            }
            result.append(line.as_str());
            i = i + 1;
        }
        result.append("end record;\n\nsignal ");
        result.append(bfm_inst);
        result.append(": ");
        result.append(unit);
        result.append("_bfm;");
        result
    }

    pub fn to_string_send(ports: &Vec<&Net>, bfm_inst: &str) -> (r: String)
        ensures
            r@ == send_text(refs_view(ports@), bfm_inst@),
    {
        let ghost pv = refs_view(ports@);
        let mut result = String::from_str(
            "procedure send(file i: text) is\n  variable row: line;\nbegin\n  if endfile(i) = false then\n    readline(i, row);\n",
        );
        let ghost head = result@;
        let mut i: usize = 0;
        while i < ports.len()
            invariant
                i <= ports@.len(),
                pv == refs_view(ports@),
                result@ == head + lines(pv, i as int, drive_line_fn(bfm_inst@)),
            decreases ports.len() - i,
        {
            let n = ports[i];
            let mut line = String::from_str("    drive(row, ");
            line.append(bfm_inst);
            line.append(".");
            line.append(n.get_identifier().as_str());
            line.append(");\n");
            proof {
                assert(pv[i as int] == n@);
                assert(line@ =~= drive_line_fn(bfm_inst@)(pv[i as int]));
            }
            result.append(line.as_str());
            i = i + 1;
        }
        result.append("  end if;\nend procedure;");
        result
    }

    pub fn to_string_comp(ports: &Vec<&Net>, unit: &str, bfm_inst: &str) -> (r: String)
        ensures
            r@ == comp_text(refs_view(ports@), unit@, bfm_inst@),
    {
        let ghost pv = refs_view(ports@);
        let mut result = String::from_str(
            "procedure compare(file e: text; file o: text) is\n  variable row: line;\n  variable expct: ",
        );
        result.append(unit);
        result.append("_bfm;\nbegin\n  if endfile(o) = false then\n    readline(o, row);\n");
        let ghost head = result@;
        let mut i: usize = 0;
        while i < ports.len()
            invariant
                i <= ports@.len(),
                pv == refs_view(ports@),
                result@ == head + lines(pv, i as int, compare_lines_fn(bfm_inst@)),
            decreases ports.len() - i,
        {
            let n = ports[i];
            let id = n.get_identifier().as_str();
            let mut line = String::from_str("    load(row, expct.");
            line.append(id);
            line.append(");\n");
            line.append("    assert_eq(e, ");
            line.append(bfm_inst);
            line.append(".");
            line.append(id);
            line.append(", expct.");
            line.append(id);
            line.append(", \"");
            line.append(id);
            line.append("\");\n");
            proof {
                assert(pv[i as int] == n@);
                assert(line@ =~= compare_lines_fn(bfm_inst@)(pv[i as int]));
            }
            result.append(line.as_str());
            i = i + 1;
        }
        result.append("  end if;\nend procedure;");
        result
    }

    /// Computes the number of bytes of the longest identifier.
    pub fn longest_id_len(ids: Vec<&String>) -> (r: usize)
        ensures
            r == longest(ids@.map_values(|s: &String| s@), ids@.len() as int),
    {
        crate::link::Link::_longest_id_len(ids)
    }

    /// The ports whose mode is `mode`, ignoring ASCII case, in their order.
    pub fn select_mode<'a>(ports: &Vec<&'a Net>, mode: &str) -> (r: Vec<&'a Net>)
        ensures
            refs_view(r@) == select_all(refs_view(ports@), mode_is_fn(mode@)),
    {
        let ghost pv = refs_view(ports@);
        let mut r: Vec<&'a Net> = Vec::new();
        let mut i: usize = 0;
        while i < ports.len()
            invariant
                i <= ports@.len(),
                pv == refs_view(ports@),
                refs_view(r@) == select(pv, i as int, mode_is_fn(mode@)),
            decreases ports.len() - i,
        {
            let n = ports[i];
            let ghost before = r@;
            if eq_ignore_ascii_case(n.get_mode().as_str(), mode) {
                r.push(n);
                assert(refs_view(r@) =~= refs_view(before).push(n@));
            }
            assert(pv[i as int] == n@);
            i = i + 1;
        }
        r
    }

    /// The identifiers of the nets, each after a space.
    fn id_list(nets: &Vec<&Net>) -> (r: String)
        ensures
            r@ == id_list(refs_view(nets@), nets@.len() as int),
    {
        let ghost nv = refs_view(nets@);
        let mut out = String::new();
        let mut i: usize = 0;
        while i < nets.len()
            invariant
                i <= nets@.len(),
                nv == refs_view(nets@),
                out@ == id_list(nv, i as int),
            decreases nets.len() - i,
        {
            out.append(" ");
            out.append(nets[i].get_identifier().as_str());
            proof {
                assert(nv[i as int] == nets@[i as int]@);
                assert(out@ =~= id_list(nv, i + 1));
            }
            i = i + 1;
        }
        out
    }

    /// What the link operation prints: the vector order when listing is
    /// asked for, else the snippets, with a blank line between two.
    pub fn output(&self) -> (r: String)
        ensures
            ({
                let ports = filtered(self.port_views(), self.excluded());
                if self.list() {
                    r@ == vector_order(ports)
                } else {
                    let secs = snippets(self.unit(), ports, self.bfm(), self.send(), self.comp());
                    r@ == printed(secs, secs.len() as int)
                }
            }),
    {
        let ports = crate::link::Link::filter_ports(&self.ports, &self.exclude);
        let ghost fp = refs_view(ports@);
        if self.list {
            let inputs = Self::select_mode(&ports, "in");
            let outputs = Self::select_mode(&ports, "out");
            let mut out = String::from_str("input vectors order:\n ");
            out.append(Self::id_list(&inputs).as_str());
            out.append("\n\n");
            out.append("output vectors order:\n ");
            out.append(Self::id_list(&outputs).as_str());
            out.append("\n\n");
            return out;
        }
        let mut secs: Vec<String> = Vec::new();
        if self.bfm {
            secs.push(Self::to_string_bfm(&ports, self.identifier.as_str(), "bfm"));
        }
        let ghost s1 = secs@.map_values(|x: String| x@);
        if self.send {
            let inputs = Self::select_mode(&ports, "in");
            let text = Self::to_string_send(&inputs, "bfm");
            secs.push(text);
            assert(secs@.map_values(|x: String| x@) =~= s1.push(text@));
        }
        let ghost s2 = secs@.map_values(|x: String| x@);
        if self.comp {
            let outputs = Self::select_mode(&ports, "out");
            let text = Self::to_string_comp(&outputs, self.identifier.as_str(), "bfm");
            secs.push(text);
            assert(secs@.map_values(|x: String| x@) =~= s2.push(text@));
        }
        let ghost sv = secs@.map_values(|x: String| x@);
        assert(sv =~= snippets(self.identifier@, fp, self.bfm, self.send, self.comp));
        let mut out = String::new();
        let mut i: usize = 0;
        while i < secs.len()
            invariant
                i <= secs@.len(),
                sv == secs@.map_values(|x: String| x@),
                out@ == printed(sv, i as int),
            decreases secs.len() - i,
        {
            if i > 0 {
                out.append("\n");
            }
            out.append(secs[i].as_str());
            out.append("\n");
            proof {
                assert(sv[i as int] == secs@[i as int]@);
                assert(out@ =~= printed(sv, i + 1));
            }
            i = i + 1;
        }
        out
    }
}

} // verus!
