//! The driver: holds a template, renders it against a caller-supplied
//! environment, and accumulates diagnostics across operations.

use vstd::prelude::*;
use vstd::string::StringExecFns;

use crate::context::EnvType;
use crate::context::EnvVal;
use crate::parser::parse;
use crate::parser::sp_concat_all;
use crate::parser::sp_eval;
use crate::scan::scan;
use crate::scan::sp_scan;

verus! {

/// Rendering a template against an environment: the concatenated output and
/// the diagnostics, in the order they occurred.
pub open spec fn sp_render(t: Seq<char>, pairs: Seq<(Seq<char>, EnvVal)>) -> (
    Seq<char>,
    Seq<Seq<char>>,
) {
    let c = sp_eval(sp_scan(t, 0), pairs);
    (sp_concat_all(c.output), c.errors)
}

/// The engine driver: a loaded template and the diagnostics gathered so
/// far.
pub struct Amps {
    pub template: Option<String>,
    pub errors: Vec<String>,
}

impl Amps {
    pub fn new() -> (r: Amps)
        ensures
            r.template is None,
            r.errors@ == Seq::<String>::empty(),
    {
        let r = Amps { template: None, errors: Vec::new() };
        proof {
            assert(r.errors@ =~= Seq::<String>::empty());
        }
        r
    }

    /// Renders the loaded template against the given environment and
    /// returns the output; diagnostics are appended to the driver's list.
    /// Without a loaded template the output is empty and that is itself a
    /// diagnostic.
    pub fn render(&mut self, env: Vec<(String, EnvType)>) -> (out: String)
        ensures
            final(self).template == old(self).template,
            (match old(self).template {
                Some(tpl) => {
                    &&& out@ == sp_render(
                        tpl@,
                        env@.map_values(|p: (String, EnvType)| (p.0@, p.1@)),
                    ).0
                    &&& final(self).errors@.map_values(|s: String| s@) == old(
                        self,
                    ).errors@.map_values(|s: String| s@) + sp_render(
                        tpl@,
                        env@.map_values(|p: (String, EnvType)| (p.0@, p.1@)),
                    ).1
                },
                None => {
                    &&& out@ == Seq::<char>::empty()
                    &&& final(self).errors@.map_values(|s: String| s@) == old(
                        self,
                    ).errors@.map_values(|s: String| s@).push("no template available"@)
                },
            }),
    {
        match &self.template {
            Some(tpl) => {
                let metainfo = scan(tpl);
                let r = parse(&metainfo, env);
                let out = r.0;
                let mut errs = r.1;
                let ghost errs0 = errs@;
                self.errors.append(&mut errs);
                proof {
                    assert(self.errors@.map_values(|s: String| s@) =~= old(
                        self,
                    ).errors@.map_values(|s: String| s@) + errs0.map_values(|s: String| s@));
                }
                out
            },
            None => {
                self.errors.push(String::from_str("no template available"));
                proof {
                    assert(self.errors@.map_values(|s: String| s@) =~= old(
                        self,
                    ).errors@.map_values(|s: String| s@).push("no template available"@));
                }
                String::new()
            },
        }
    }

    /// The diagnostics gathered so far, in order.
    pub fn get_errors(&self) -> (r: &Vec<String>)
        ensures
            r@ == self.errors@,
    {
        &self.errors
    }

    /// The loaded template, if one is loaded.
    pub fn get_template(&self) -> (r: &Option<String>)
        ensures
            *r == self.template,
    {
        &self.template
    }

    /// Loads a template from a string.
    pub fn load_template(&mut self, template: String)
        ensures
            final(self).template == Some(template),
            final(self).errors == old(self).errors,
    {
        self.template = Some(template);
    }
}

} // verus!
