use crate::error::Error;
use crate::generic::Generic;
use crate::text::{has_prefix, same_text, starts_with};
use vstd::prelude::*;

verus! {

/// What `str::to_lowercase` makes of a text: it depends on the characters alone.
pub uninterp spec fn lowercase_of(s: Seq<char>) -> Seq<char>;

/// What `str::to_uppercase` makes of a text: it depends on the characters alone.
pub uninterp spec fn uppercase_of(s: Seq<char>) -> Seq<char>;

/// Relies on `str::to_lowercase`: the Unicode lowercase form of the text.
#[verifier::external_body]
fn lowercase(s: &str) -> (r: String)
    ensures
        r@ == lowercase_of(s@),
{
    s.to_lowercase()
}

/// Relies on `str::to_uppercase`: the Unicode uppercase form of the text.
#[verifier::external_body]
fn uppercase(s: &str) -> (r: String)
    ensures
        r@ == uppercase_of(s@),
{
    s.to_uppercase()
}

/// A port or a generic of a hardware unit, as plain text.
pub struct NetView {
    pub identifier: Seq<char>,
    pub dtype: Seq<char>,
    pub mode: Seq<char>,
    pub default: Option<Seq<char>>,
}

/// Whether a mode marks a signal that flows into the unit.
pub open spec fn is_input_mode(mode: Seq<char>) -> bool {
    has_prefix(mode, "in"@) && mode != "inout"@
}

/// Whether a mode marks a signal that flows out of the unit.
pub open spec fn is_output_mode(mode: Seq<char>) -> bool {
    has_prefix(mode, "out"@)
}

/// Whether an identifier answers to `name`, ignoring case through the
/// uppercase forms when asked to.
pub open spec fn identifier_matches(id: Seq<char>, name: Seq<char>, ignore_case: bool) -> bool {
    if ignore_case {
        uppercase_of(id) == uppercase_of(name)
    } else {
        id == name
    }
}

/// A named, typed signal or parameter of a unit.
#[derive(Debug)]
pub struct Net {
    identifier: String,
    dtype: String,
    mode: String,
    default: Option<String>,
}

/// The plain text of an optional string.
pub open spec fn opt_view(o: Option<String>) -> Option<Seq<char>> {
    match o {
        Some(s) => Some(s@),
        None => None,
    }
}

impl View for Net {
    type V = NetView;

    closed spec fn view(&self) -> NetView {
        NetView {
            identifier: self.identifier@,
            dtype: self.dtype@,
            mode: self.mode@,
            default: opt_view(self.default),
        }
    }
}

/// The views of a sequence of nets.
pub open spec fn nets_view(s: Seq<Net>) -> Seq<NetView> {
    s.map_values(|n: Net| n@)
}

impl Net {
    pub fn with(identifier: String, dtype: String, mode: String, default: Option<String>) -> (r: Net)
        ensures
            r@ == (NetView {
                identifier: identifier@,
                dtype: dtype@,
                mode: mode@,
                default: opt_view(default),
            }),
    {
        Net { identifier, dtype, mode, default }
    }

    pub fn get_identifier(&self) -> (r: &String)
        ensures
            r@ == self@.identifier,
    {
        &self.identifier
    }

    pub fn get_type(&self) -> (r: &String)
        ensures
            r@ == self@.dtype,
    {
        &self.dtype
    }

    pub fn get_mode(&self) -> (r: &String)
        ensures
            r@ == self@.mode,
    {
        &self.mode
    }

    pub fn get_default(&self) -> (r: Option<&String>)
        ensures
            match r {
                Some(d) => self@.default == Some(d@),
                None => self@.default is None,
            },
    {
        match &self.default {
            Some(d) => Some(d),
            None => None,
        }
    }

    pub fn set_default(&mut self, val: String)
        ensures
            final(self)@ == (NetView { default: Some(val@), ..old(self)@ }),
    {
        self.default = Some(val);
    }

    /// Whether the net flows into the unit: its mode starts with `in` and is
    /// not `inout`.
    pub fn is_input(&self) -> (r: bool)
        ensures
            r == is_input_mode(self@.mode),
    {
        starts_with(self.mode.as_str(), "in") && !same_text(self.mode.as_str(), "inout")
    }

    /// Whether the net flows out of the unit: its mode starts with `out`.
    pub fn is_output(&self) -> (r: bool)
        ensures
            r == is_output_mode(self@.mode),
    {
        starts_with(self.mode.as_str(), "out")
    }

    /// Checks if this net has the same identifier
    pub fn is_identifier(&self, name: &str, ignore_case: bool) -> (r: bool)
        ensures
            r == identifier_matches(self@.identifier, name@, ignore_case),
    {
        if ignore_case {
            let id_upper = uppercase(self.identifier.as_str());
            let name_upper = uppercase(name);
            Net::forms_match(self.identifier.as_str(), name, id_upper.as_str(), name_upper.as_str(), true)
        } else {
            Net::forms_match(self.identifier.as_str(), name, "", "", false)
        }
    }

    /// Whether an identifier answers to a name, given both and their
    /// uppercase forms: the uppercase forms are compared when case is
    /// ignored, the texts themselves otherwise.
    pub fn forms_match(id: &str, name: &str, id_upper: &str, name_upper: &str, ignore_case: bool) -> (r: bool)
        ensures
            r == if ignore_case { id_upper@ == name_upper@ } else { id@ == name@ },
    {
        if ignore_case {
            same_text(id_upper, name_upper)
        } else {
            same_text(id, name)
        }
    }
}

/// The hardware description languages a unit may be written in.
#[derive(Debug, Clone, Copy, PartialEq, Eq, Structural)]
pub enum Language {
    Vhdl,
    Verilog,
    SystemVerilog,
}

/// The name of a language, as documents spell it.
pub open spec fn language_name(l: Language) -> Seq<char> {
    match l {
        Language::Vhdl => "vhdl"@,
        Language::Verilog => "verilog"@,
        Language::SystemVerilog => "systemverilog"@,
    }
}

/// The language whose name is `lowered`, if any.
pub open spec fn language_named(lowered: Seq<char>) -> Option<Language> {
    if lowered == "vhdl"@ {
        Some(Language::Vhdl)
    } else if lowered == "verilog"@ {
        Some(Language::Verilog)
    } else if lowered == "systemverilog"@ {
        Some(Language::SystemVerilog)
    } else {
        None
    }
}

impl Language {
    /// Resolves a language from its name already folded to lower case;
    /// `original` is the text as written, which an error repeats.
    pub fn from_lowered(lowered: &str, original: &str) -> (r: Result<Language, Error>)
        ensures
            match language_named(lowered@) {
                Some(l) => r == Ok::<Language, Error>(l),
                None => r matches Err(Error::UnsupportedLang(m)) && m@ == original@,
            },
    {
        if same_text(lowered, "vhdl") {
            Ok(Language::Vhdl)
        } else if same_text(lowered, "verilog") {
            Ok(Language::Verilog)
        } else if same_text(lowered, "systemverilog") {
            Ok(Language::SystemVerilog)
        } else {
            Err(Error::UnsupportedLang(original.to_owned()))
        }
    }

    /// Resolves a language from its name, ignoring case.
    pub fn from_str(s: &str) -> (r: Result<Language, Error>)
        ensures
            match language_named(lowercase_of(s@)) {
                Some(l) => r == Ok::<Language, Error>(l),
                None => r matches Err(Error::UnsupportedLang(m)) && m@ == s@,
            },
    {
        let lowered = lowercase(s);
        Self::from_lowered(lowered.as_str(), s)
    }

    /// The language's name, in lower case.
    pub fn to_string(&self) -> (r: String)
        ensures
            r@ == language_name(*self),
    {
        match self {
            Language::Vhdl => "vhdl".to_owned(),
            Language::Verilog => "verilog".to_owned(),
            Language::SystemVerilog => "systemverilog".to_owned(),
        }
    }
}

/// A hardware unit's interface, as plain values.
pub struct UnitView {
    pub identifier: Seq<char>,
    pub generics: Seq<NetView>,
    pub ports: Seq<NetView>,
    pub architectures: Seq<Seq<char>>,
    pub language: Language,
}

/// A hardware unit's interface: its name, generics, ports and language.
#[derive(Debug)]
pub struct Unit {
    identifier: String,
    generics: Vec<Net>,
    ports: Vec<Net>,
    architectures: Vec<String>,
    language: Language,
}

impl View for Unit {
    type V = UnitView;

    closed spec fn view(&self) -> UnitView {
        UnitView {
            identifier: self.identifier@,
            generics: nets_view(self.generics@),
            ports: nets_view(self.ports@),
            architectures: self.architectures@.map_values(|a: String| a@),
            language: self.language,
        }
    }
}

/// The index of the first net at or after `i` whose identifier answers to `key`.
pub open spec fn first_match_from(nets: Seq<NetView>, key: Seq<char>, ignore_case: bool, i: int) -> Option<int>
    decreases nets.len() - i,
{
    if i < 0 || i >= nets.len() {
        None
    } else if identifier_matches(nets[i].identifier, key, ignore_case) {
        Some(i)
    } else {
        first_match_from(nets, key, ignore_case, i + 1)
    }
}

/// The nets once `value` is made the default of the first net named `key`,
/// or `None` when no net is named so.
pub open spec fn override_one(nets: Seq<NetView>, key: Seq<char>, value: Seq<char>, ignore_case: bool) -> Option<Seq<NetView>> {
    match first_match_from(nets, key, ignore_case, 0) {
        Some(i) => Some(nets.update(i, NetView { default: Some(value), ..nets[i] })),
        None => None,
    }
}

/// The generics after the overrides are applied in order, and the key of the
/// override that found no generic, which ends the run.
pub open spec fn override_all(nets: Seq<NetView>, overrides: Seq<(Seq<char>, Seq<char>)>, ignore_case: bool) -> (Seq<NetView>, Option<Seq<char>>)
    decreases overrides.len(),
{
    if overrides.len() == 0 {
        (nets, None)
    } else {
        let before = override_all(nets, overrides.drop_last(), ignore_case);
        if before.1 is Some {
            before
        } else {
            let last = overrides.last();
            match override_one(before.0, last.0, last.1, ignore_case) {
                Some(after) => (after, None),
                None => (before.0, Some(last.0)),
            }
        }
    }
}

/// The views of the overrides, as key and value.
pub open spec fn generics_view(s: Seq<Generic>) -> Seq<(Seq<char>, Seq<char>)> {
    s.map_values(|g: Generic| g@)
}

impl Unit {
    pub fn with(
        identifier: String,
        generics: Vec<Net>,
        ports: Vec<Net>,
        architectures: Vec<String>,
        language: Language,
    ) -> (r: Unit)
        ensures
            r@ == (UnitView {
                identifier: identifier@,
                generics: nets_view(generics@),
                ports: nets_view(ports@),
                architectures: architectures@.map_values(|a: String| a@),
                language: language,
            }),
    {
        Unit { identifier, generics, ports, architectures, language }
    }

    /// Builds a unit whose language is given by name, matched ignoring case.
    pub fn from_parts(
        identifier: String,
        generics: Vec<Net>,
        ports: Vec<Net>,
        architectures: Vec<String>,
        language: &str,
    ) -> (r: Result<Unit, Error>)
        ensures
            match language_named(lowercase_of(language@)) {
                Some(l) => r matches Ok(u) && u@ == (UnitView {
                    identifier: identifier@,
                    generics: nets_view(generics@),
                    ports: nets_view(ports@),
                    architectures: architectures@.map_values(|a: String| a@),
                    language: l,
                }),
                None => r matches Err(Error::UnsupportedLang(m)) && m@ == language@,
            },
    {
        match Language::from_str(language) {
            Ok(l) => Ok(Self::with(identifier, generics, ports, architectures, l)),
            Err(e) => Err(e),
        }
    }

    pub fn get_ports(&self) -> (r: &Vec<Net>)
        ensures
            nets_view(r@) == self@.ports,
    {
        &self.ports
    }

    pub fn get_identifier(&self) -> (r: &String)
        ensures
            r@ == self@.identifier,
    {
        &self.identifier
    }

    pub fn get_generics(&self) -> (r: &Vec<Net>)
        ensures
            nets_view(r@) == self@.generics,
    {
        &self.generics
    }

    /// The generics, for the caller to change in place.
    pub fn get_generics_mut(&mut self) -> (r: &mut Vec<Net>)
        ensures
            nets_view(r@) == old(self)@.generics,
            final(self)@ == (UnitView { generics: nets_view(final(r)@), ..old(self)@ }),
    {
        &mut self.generics
    }

    pub fn get_architectures(&self) -> (r: &Vec<String>)
        ensures
            r@.map_values(|a: String| a@) == self@.architectures,
    {
        &self.architectures
    }

    pub fn get_language(&self) -> (r: &Language)
        ensures
            *r == self@.language,
    {
        &self.language
    }

    /// Applies generic overrides in order: each sets the default of the first
    /// generic whose identifier matches its key, ignoring case for VHDL units.
    /// A key that matches no generic fails with `GenericNotFound`, and the
    /// overrides before it stay applied.
    pub fn apply_overrides(&mut self, overrides: &Vec<Generic>) -> (r: Result<(), Error>)
        ensures
            ({
                let out = override_all(old(self)@.generics, generics_view(overrides@), old(self)@.language == Language::Vhdl);
                &&& final(self)@ == (UnitView { generics: out.0, ..old(self)@ })
                &&& match out.1 {
                    None => r is Ok,
                    Some(key) => r matches Err(Error::GenericNotFound(k)) && k@ == key,
                }
            }),
    {
        let ignore_case = self.language == Language::Vhdl;
        let ghost start = self@;
        let ghost ovs = generics_view(overrides@);
        let mut j: usize = 0;
        while j < overrides.len()
            invariant
                j <= overrides@.len(),
                ovs == generics_view(overrides@),
                start == old(self)@,
                ignore_case == (start.language == Language::Vhdl),
                override_all(start.generics, ovs.take(j as int), ignore_case) == (self@.generics, None::<Seq<char>>),
                self@ == (UnitView { generics: self@.generics, ..start }),
            decreases overrides.len() - j,
        {
            let g = &overrides[j];
            assert(ovs.take(j + 1).drop_last() =~= ovs.take(j as int));
            let found = self.find_generic(g.key().as_str(), ignore_case);
            match found {
                Some(i) => {
                    let old_net = &self.generics[i];
                    let net = Net {
                        identifier: old_net.identifier.clone(),
                        dtype: old_net.dtype.clone(),
                        mode: old_net.mode.clone(),
                        default: Some(g.value().clone()),
                    };
                    let ghost before = self.generics@;
                    self.generics.set(i, net);
                    proof {
                        assert(nets_view(self.generics@) =~= nets_view(before).update(
                            i as int,
                            NetView { default: Some(ovs[j as int].1), ..nets_view(before)[i as int] },
                        ));
                    }
                },
                None => {
                    proof {
                        assert(ovs[j as int] == g@);
                        assert(ovs.take(j + 1).last() == ovs[j as int]);
                        assert(override_all(start.generics, ovs.take(j + 1), ignore_case).1 == Some(g@.0));
                        lemma_override_all_stops(start.generics, ovs, j as int + 1, ignore_case);
                    }
                    return Err(Error::GenericNotFound(g.key().clone()));
                },
            }
            j = j + 1;
        }
        proof {
            assert(ovs.take(overrides@.len() as int) =~= ovs);
        }
        Ok(())
    }

    /// The index of the first generic whose identifier matches `key`.
    fn find_generic(&self, key: &str, ignore_case: bool) -> (r: Option<usize>)
        ensures
            match r {
                Some(i) => first_match_from(self@.generics, key@, ignore_case, 0) == Some(i as int)
                    && i < self@.generics.len(),
                None => first_match_from(self@.generics, key@, ignore_case, 0) is None,
            },
    {
        let key_upper = if ignore_case { uppercase(key) } else { String::new() };
        let mut i: usize = 0;
        while i < self.generics.len()
            invariant
                i <= self.generics@.len(),
                ignore_case ==> key_upper@ == uppercase_of(key@),
                first_match_from(self@.generics, key@, ignore_case, 0) == first_match_from(self@.generics, key@, ignore_case, i as int),
            decreases self.generics.len() - i,
        {
            let n = &self.generics[i];
            let id_upper = if ignore_case { uppercase(n.identifier.as_str()) } else { String::new() };
            assert(self@.generics[i as int] == n@);
            if Net::forms_match(n.identifier.as_str(), key, id_upper.as_str(), key_upper.as_str(), ignore_case) {
                return Some(i);
            }
            i = i + 1;
        }
        None
    }
}

/// Once an override has failed, later overrides change nothing.
proof fn lemma_override_all_stops(nets: Seq<NetView>, ovs: Seq<(Seq<char>, Seq<char>)>, k: int, ignore_case: bool)
    requires
        0 < k <= ovs.len(),
        override_all(nets, ovs.take(k), ignore_case).1 is Some,
    ensures
        override_all(nets, ovs, ignore_case) == override_all(nets, ovs.take(k), ignore_case),
    decreases ovs.len() - k,
{
    if k < ovs.len() {
        assert(ovs.take(k + 1).drop_last() =~= ovs.take(k));
        lemma_override_all_stops(nets, ovs, k + 1, ignore_case);
    } else {
        assert(ovs.take(k) =~= ovs);
    }
}

/// A net marked `inout` flows neither in nor out: it takes part in neither
/// the stimulus nor the comparison.
pub proof fn lemma_inout_is_neither(n: NetView)
    requires
        n.mode == "inout"@,
    ensures
        !is_input_mode(n.mode),
        !is_output_mode(n.mode),
{
    reveal_strlit("inout");
    reveal_strlit("out");
    assert(n.mode.subrange(0, 3) != "out"@) by {
        assert(n.mode.subrange(0, 3)[0] == 'i');
        assert("out"@[0] == 'o');
    }
}

/// The name that a language is written as resolves back to that language.
pub proof fn lemma_language_name_round_trip(l: Language)
    ensures
        language_named(language_name(l)) == Some(l),
{
    reveal_strlit("vhdl");
    reveal_strlit("verilog");
    reveal_strlit("systemverilog");
    assert("vhdl"@.len() != "verilog"@.len());
    assert("vhdl"@.len() != "systemverilog"@.len());
    assert("verilog"@.len() != "systemverilog"@.len());
}

} // verus!
