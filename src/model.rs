use crate::error::Error;
use crate::generic::Generic;
use crate::unit::{Language, Unit, UnitView, generics_view, override_all};
use crate::text::string_of;
use vstd::prelude::*;
use vstd::string::*;

verus! {

/// The decimal digits of `n`.
pub open spec fn decimal(n: nat) -> Seq<char>
    decreases n,
{
    if n < 10 {
        seq![(('0' as u32) + n) as char]
    } else {
        decimal(n / 10) + seq![(('0' as u32) + (n % 10)) as char]
    }
}

/// The decimal form of `n`, with a leading `-` when it is negative.
pub open spec fn signed_decimal(n: int) -> Seq<char> {
    if n < 0 {
        seq!['-'] + decimal((-n) as nat)
    } else {
        decimal(n as nat)
    }
}

/// The decimal digits of `n`, as the `Display` of `usize` writes them.
pub(crate) fn usize_text(n: usize) -> (r: String)
    ensures
        r@ == decimal(n as nat),
{
    let mut m: usize = n;
    let mut suffix: Vec<char> = Vec::new();
    while m >= 10
        invariant
            decimal(n as nat) == decimal(m as nat) + suffix@,
        decreases m,
    {
        let d: u8 = (m % 10) as u8;
        let c: char = (48u8 + d) as char;
        assert(c == ((('0' as u32) + ((m as nat) % 10)) as char));
        let ghost before = suffix@;
        suffix.insert(0, c);
        assert(decimal(m as nat) == decimal((m / 10) as nat) + seq![c]);
        assert(suffix@ =~= seq![c] + before);
        assert(decimal(n as nat) =~= decimal((m / 10) as nat) + suffix@);
        m = m / 10;
    }
    let d: u8 = m as u8;
    let c: char = (48u8 + d) as char;
    assert(decimal(m as nat) == seq![c]);
    let mut digits: Vec<char> = Vec::new();
    digits.push(c);
    let mut r = string_of(&digits, 0, 1);
    r.append(string_of(&suffix, 0, suffix.len()).as_str());
    assert(suffix@.subrange(0, suffix@.len() as int) =~= suffix@);
    assert(digits@.subrange(0, 1) =~= seq![c]);
    assert(r@ =~= decimal(n as nat));
    r
}

/// The decimal digits of `n`, after `-` when it is negative, as the
/// `Display` of `isize` writes them.
fn isize_text(n: isize) -> (r: String)
    ensures
        r@ == signed_decimal(n as int),
{
    if n < 0 {
        let magnitude: usize = (-(n as i128)) as usize;
        let mut r = String::from_str("-");
        r.append(usize_text(magnitude).as_str());
        proof {
            reveal_strlit("-");
        }
        assert(r@ =~= signed_decimal(n as int));
        r
    } else {
        usize_text(n as usize)
    }
}

/// A named configuration value as plain text.
pub open spec fn entry_view(e: (String, String)) -> (Seq<char>, Seq<char>) {
    (e.0@, e.1@)
}

/// The optional configuration entry named `key`.
pub open spec fn optional_entry(key: Seq<char>, value: Option<Seq<char>>) -> Seq<(Seq<char>, Seq<char>)> {
    match value {
        Some(v) => seq![(key, v)],
        None => Seq::empty(),
    }
}

/// The plain text of an optional number.
pub open spec fn opt_usize_text(o: Option<usize>) -> Option<Seq<char>> {
    match o {
        Some(n) => Some(decimal(n as nat)),
        None => None,
    }
}

/// The plain text of an optional signed number.
pub open spec fn opt_isize_text(o: Option<isize>) -> Option<Seq<char>> {
    match o {
        Some(n) => Some(signed_decimal(n as int)),
        None => None,
    }
}

/// The plain text of an optional string.
pub open spec fn opt_text(o: Option<String>) -> Option<Seq<char>> {
    match o {
        Some(s) => Some(s@),
        None => None,
    }
}

/// Runs a design's software model with the units' interfaces as its
/// configuration.
pub struct Model {
    model: String,
    dut: Unit,
    tb: Unit,
    dir: Option<String>,
    generics: Vec<Generic>,
    coverage: Option<String>,
    rand_seed: Option<usize>,
    loop_limit: Option<isize>,
    model_args: Vec<String>,
}

impl Model {
    pub fn new(
        model: String,
        dut: Unit,
        tb: Unit,
        dir: Option<String>,
        generics: Vec<Generic>,
        coverage: Option<String>,
        rand_seed: Option<usize>,
        loop_limit: Option<isize>,
        model_args: Vec<String>,
    ) -> (r: Model)
        ensures
            r.command() == model,
            r.directory() == dir,
            r.arguments() == model_args,
            r.dut_view() == dut@,
            r.tb_view() == tb@,
            r.overrides() == generics_view(generics@),
            r.coverage_view() == opt_text(coverage),
            r.seed() == rand_seed,
            r.limit() == loop_limit,
    {
        Model { model, dut, tb, dir, generics, coverage, rand_seed, loop_limit, model_args }
    }

    pub closed spec fn dut_view(&self) -> UnitView {
        self.dut@
    }

    pub closed spec fn tb_view(&self) -> UnitView {
        self.tb@
    }

    pub closed spec fn overrides(&self) -> Seq<(Seq<char>, Seq<char>)> {
        generics_view(self.generics@)
    }

    pub closed spec fn coverage_view(&self) -> Option<Seq<char>> {
        opt_text(self.coverage)
    }

    pub closed spec fn seed(&self) -> Option<usize> {
        self.rand_seed
    }

    pub closed spec fn limit(&self) -> Option<isize> {
        self.loop_limit
    }

    pub closed spec fn command(&self) -> String {
        self.model
    }

    pub closed spec fn directory(&self) -> Option<String> {
        self.dir
    }

    pub closed spec fn arguments(&self) -> Vec<String> {
        self.model_args
    }

    pub fn get_model(&self) -> (r: &String)
        ensures
            *r == self.command(),
    {
        &self.model
    }

    pub fn get_dir(&self) -> (r: &Option<String>)
        ensures
            *r == self.directory(),
    {
        &self.dir
    }

    pub fn get_model_args(&self) -> (r: &Vec<String>)
        ensures
            *r == self.arguments(),
    {
        &self.model_args
    }

    pub fn get_dut(&self) -> (r: &Unit)
        ensures
            r@ == self.dut_view(),
    {
        &self.dut
    }

    pub fn get_tb(&self) -> (r: &Unit)
        ensures
            r@ == self.tb_view(),
    {
        &self.tb
    }

    /// Applies the generic overrides to the testbench, in order; see
    /// `Unit::apply_overrides`.
    pub fn apply_generics(&mut self) -> (r: Result<(), Error>)
        ensures
            ({
                let out = override_all(
                    old(self).tb_view().generics,
                    old(self).overrides(),
                    old(self).tb_view().language == Language::Vhdl,
                );
                &&& final(self).tb_view() == (UnitView { generics: out.0, ..old(self).tb_view() })
                &&& final(self).dut_view() == old(self).dut_view()
                &&& final(self).overrides() == old(self).overrides()
                &&& final(self).coverage_view() == old(self).coverage_view()
                &&& final(self).seed() == old(self).seed()
                &&& final(self).limit() == old(self).limit()
                &&& final(self).command() == old(self).command()
                &&& final(self).directory() == old(self).directory()
                &&& final(self).arguments() == old(self).arguments()
                &&& match out.1 {
                    None => r is Ok,
                    Some(key) => r matches Err(Error::GenericNotFound(k)) && k@ == key,
                }
            }),
    {
        self.tb.apply_overrides(&self.generics)
    }

    /// The named values handed to the model's process: the two interface
    /// documents, then the loop limit, the seed and the coverage file when set.
    pub fn settings(&self, dut_doc: String, tb_doc: String) -> (r: Vec<(String, String)>)
        ensures
            r@.map_values(|e: (String, String)| entry_view(e)) == seq![("VERB_DUT"@, dut_doc@), ("VERB_TB"@, tb_doc@)]
                + optional_entry("VERB_LOOP_LIMIT"@, opt_isize_text(self.limit()))
                + optional_entry("VERB_RAND_SEED"@, opt_usize_text(self.seed()))
                + optional_entry("VERB_COVERAGE_FILE"@, self.coverage_view()),
    {
        let mut r: Vec<(String, String)> = Vec::new();
        r.push(("VERB_DUT".to_owned(), dut_doc));
        r.push(("VERB_TB".to_owned(), tb_doc));
        let ghost base = r@.map_values(|e: (String, String)| entry_view(e));
        match self.loop_limit {
            Some(ll) => r.push(("VERB_LOOP_LIMIT".to_owned(), isize_text(ll))),
            None => {},
        }
        let ghost with_limit = r@.map_values(|e: (String, String)| entry_view(e));
        assert(with_limit =~= base + optional_entry("VERB_LOOP_LIMIT"@, opt_isize_text(self.limit())));
        match self.rand_seed {
            Some(rs) => r.push(("VERB_RAND_SEED".to_owned(), usize_text(rs))),
            None => {},
        }
        let ghost with_seed = r@.map_values(|e: (String, String)| entry_view(e));
        assert(with_seed =~= with_limit + optional_entry("VERB_RAND_SEED"@, opt_usize_text(self.seed())));
        match &self.coverage {
            Some(cov) => r.push(("VERB_COVERAGE_FILE".to_owned(), cov.clone())),
            None => {},
        }
        assert(r@.map_values(|e: (String, String)| entry_view(e)) =~= with_seed + optional_entry(
            "VERB_COVERAGE_FILE"@,
            self.coverage_view(),
        ));
        r
    }

    /// The outcome of the model's run from its exit code, `None` when a
    /// signal ended it.
    pub fn exit_status(code: Option<i32>) -> (r: Result<(), Error>)
        ensures
            match code {
                Some(0) => r is Ok,
                Some(n) => r == Err::<(), Error>(Error::ChildProcErrorCode(n)),
                None => r == Err::<(), Error>(Error::ChildProcTerminated),
            },
    {
        match code {
            Some(num) => {
                if num != 0 {
                    Err(Error::ChildProcErrorCode(num))
                } else {
                    Ok(())
                }
            },
            None => Err(Error::ChildProcTerminated),
        }
    }
}

} // verus!
