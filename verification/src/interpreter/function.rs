//! The functions a running program defines, by name.
use vstd::prelude::*;
use crate::common::types::Type;
use crate::interpreter::named::{find_key, key_get, key_index, key_set, keys, lemma_key_same_names, lemma_key_set_get};
use crate::parser::node::{PrivateNode, Stmt, copy_node};
use crate::text::owned;

verus! {

#[derive(Debug)]
pub struct FunctionDef {
    pub name: String,
    pub parameters: Vec<(String, Type)>,
    pub process: PrivateNode,
}

/// The model of a function definition.
pub struct DefModel {
    pub name: Seq<char>,
    pub parameters: Seq<(Seq<char>, Type)>,
    pub process: Stmt,
}

/// The model of a list of parameters.
pub open spec fn typed_names(v: Seq<(String, Type)>) -> Seq<(Seq<char>, Type)> {
    v.map_values(|p: (String, Type)| (p.0@, p.1))
}

impl View for FunctionDef {
    type V = DefModel;

    open spec fn view(&self) -> DefModel {
        DefModel { name: self.name@, parameters: typed_names(self.parameters@), process: self.process@ }
    }
}

/// The definitions of a list of entries, by name.
pub open spec fn defs_model(v: Seq<(String, FunctionDef)>) -> Seq<(Seq<char>, DefModel)> {
    v.map_values(|p: (String, FunctionDef)| (p.0@, p.1@))
}

proof fn lemma_names(v: Seq<(String, FunctionDef)>, k: Seq<char>)
    ensures
        key_index(defs_model(v), k) == key_index(keys(v), k),
{
    lemma_key_same_names(defs_model(v), keys(v), k);
}

/// A function defined is found under its name with the definition given;
/// the other names are found as before.
pub proof fn law_add_def_then_get(defs: Seq<(Seq<char>, DefModel)>, name: Seq<char>, other: Seq<char>, def: DefModel)
    ensures
        key_get(key_set(defs, name, def), name) == Some(def),
        other != name ==> key_get(key_set(defs, name, def), other) == key_get(defs, other),
{
    lemma_key_set_get(defs, name, other, def);
}

pub struct FunctionManager {
    pub function_defs: Vec<(String, FunctionDef)>,
}

impl FunctionManager {
    /// The definitions, by name.
    pub open spec fn defs(&self) -> Seq<(Seq<char>, DefModel)> {
        defs_model(self.function_defs@)
    }

    pub fn new() -> (r: Self)
        ensures
            r.defs() == Seq::<(Seq<char>, DefModel)>::empty(),
    {
        let r = Self { function_defs: Vec::new() };
        assert(r.defs() =~= Seq::<(Seq<char>, DefModel)>::empty());
        r
    }

    /// Defines `function_name`, replacing an earlier definition of it.
    pub fn add_def(&mut self, function_name: &str, parameters: Vec<(String, Type)>, process: &PrivateNode)
        ensures
            final(self).defs() == key_set(
                old(self).defs(),
                function_name@,
                DefModel { name: function_name@, parameters: typed_names(parameters@), process: process@ },
            ),
    {
        let def = FunctionDef { name: owned(function_name), parameters, process: copy_node(process) };
        let ghost before = self.function_defs@;
        proof {
            lemma_names(before, function_name@);
        }
        match find_key(&self.function_defs, function_name) {
            Some(i) => {
                self.function_defs.set(i, (owned(function_name), def));
                assert(self.defs() =~= defs_model(before).update(i as int, (function_name@, def@)));
            },
            None => {
                self.function_defs.push((owned(function_name), def));
                assert(self.defs() =~= defs_model(before).push((function_name@, def@)));
            },
        }
    }

    /// The definition of `function_name`, if any.
    pub fn get_function(&self, function_name: &str) -> (r: Option<&FunctionDef>)
        ensures
            r matches Some(d) ==> key_get(self.defs(), function_name@) == Some(d@),
            r is None ==> key_get(self.defs(), function_name@) is None,
    {
        proof {
            lemma_names(self.function_defs@, function_name@);
        }
        match find_key(&self.function_defs, function_name) {
            Some(i) => Some(&self.function_defs[i].1),
            None => None,
        }
    }
}

} // verus!
