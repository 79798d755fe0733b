use crate::generic::Generic;
use crate::model::{decimal, entry_view, usize_text};
use crate::unit::{Unit, UnitView, generics_view};
use vstd::prelude::*;

verus! {

/// The JSON text of an optional count: `null`, or its digits.
pub open spec fn json_count(o: Option<usize>) -> Seq<char> {
    match o {
        Some(n) => decimal(n as nat),
        None => "null"@,
    }
}

/// Runs the software model of a design with the interfaces as its configuration.
pub struct Model {
    model: String,
    dut: Unit,
    tb: Unit,
    generics: Vec<Generic>,
    seed: Option<usize>,
    max_iters: Option<usize>,
    model_args: Vec<String>,
}

impl Model {
    pub fn new(
        model: String,
        dut: Unit,
        tb: Unit,
        generics: Vec<Generic>,
        seed: Option<usize>,
        max_iters: Option<usize>,
        model_args: Vec<String>,
    ) -> (r: Model)
        ensures
            r.command() == model,
            r.arguments() == model_args,
            r.random_seed() == seed,
            r.dut_view() == dut@,
            r.tb_view() == tb@,
            r.overrides() == generics_view(generics@),
            r.iterations() == max_iters,
    {
        Model { model, dut, tb, generics, seed, max_iters, model_args }
    }

    pub closed spec fn dut_view(&self) -> UnitView {
        self.dut@
    }

    pub closed spec fn tb_view(&self) -> UnitView {
        self.tb@
    }

    pub closed spec fn overrides(&self) -> Seq<(Seq<char>, Seq<char>)> {
        generics_view(self.generics@)
    }

    pub closed spec fn iterations(&self) -> Option<usize> {
        self.max_iters
    }

    pub closed spec fn command(&self) -> String {
        self.model
    }

    pub closed spec fn arguments(&self) -> Vec<String> {
        self.model_args
    }

    pub closed spec fn random_seed(&self) -> Option<usize> {
        self.seed
    }

    pub fn get_model(&self) -> (r: &String)
        ensures
            *r == self.command(),
    {
        &self.model
    }

    pub fn get_dut(&self) -> (r: &Unit)
        ensures
            r@ == self.dut_view(),
    {
        &self.dut
    }

    pub fn get_tb(&self) -> (r: &Unit)
        ensures
            r@ == self.tb_view(),
    {
        &self.tb
    }

    pub fn get_generics(&self) -> (r: &Vec<Generic>)
        ensures
            generics_view(r@) == self.overrides(),
    {
        &self.generics
    }

    pub fn get_seed(&self) -> (r: Option<usize>)
        ensures
            r == self.random_seed(),
    {
        self.seed
    }

    pub fn get_model_args(&self) -> (r: &Vec<String>)
        ensures
            *r == self.arguments(),
    {
        &self.model_args
    }

    /// The named values handed to the model: the two interface documents, the
    /// overrides as a document, and the iteration limit as JSON.
    pub fn settings(&self, dut_doc: String, tb_doc: String, generics_doc: String) -> (r: Vec<(String, String)>)
        ensures
            r@.map_values(|e: (String, String)| entry_view(e)) == seq![
                ("VERTEX_FDI_DUT"@, dut_doc@),
                ("VERTEX_FDI_TB"@, tb_doc@),
                ("VERTEX_FDI_GENERICS"@, generics_doc@),
                ("VERTEX_FDI_MAX_ITERS"@, json_count(self.iterations())),
            ],
    {
        let iters = match self.max_iters {
            Some(n) => usize_text(n),
            None => "null".to_owned(),
        };
        let mut r: Vec<(String, String)> = Vec::new();
        r.push(("VERTEX_FDI_DUT".to_owned(), dut_doc));
        r.push(("VERTEX_FDI_TB".to_owned(), tb_doc));
        r.push(("VERTEX_FDI_GENERICS".to_owned(), generics_doc));
        r.push(("VERTEX_FDI_MAX_ITERS".to_owned(), iters));
        assert(r@.map_values(|e: (String, String)| entry_view(e)) =~= seq![
            ("VERTEX_FDI_DUT"@, dut_doc@),
            ("VERTEX_FDI_TB"@, tb_doc@),
            ("VERTEX_FDI_GENERICS"@, generics_doc@),
            ("VERTEX_FDI_MAX_ITERS"@, json_count(self.iterations())),
        ]);
        r
    }
}

} // verus!
