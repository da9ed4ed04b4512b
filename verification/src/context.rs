//! The evaluation context of one render: the value stack, the read-only
//! environment, the branch stack, the diagnostics list, and the output
//! chunks, together with their mathematical model.

use vstd::prelude::*;
use vstd::string::StrSliceExecFns;
use vstd::string::StringExecFns;

use crate::text::spec_i64_dec;
use crate::text::str_eq;
use crate::text::u64_text;
use crate::token_types::TokenTypes;

verus! {

/// A runtime value: the expression evaluator works on these.
pub enum StackType {
    Number(i64),
    Text(String),
    Bool(bool),
}

/// The model of a runtime value.
#[verifier::ext_equal]
pub ghost enum Val {
    Num(i64),
    Text(Seq<char>),
    Bool(bool),
}

impl View for StackType {
    type V = Val;

    open spec fn view(&self) -> Val {
        match *self {
            StackType::Number(n) => Val::Num(n),
            StackType::Text(ref s) => Val::Text(s@),
            StackType::Bool(b) => Val::Bool(b),
        }
    }
}

/// A caller-supplied environment value. Maps are association lists from a
/// name to a value; the first entry with a given name is the binding.
pub enum EnvType {
    Number(i64),
    Text(String),
    NumberVector(Vec<i64>),
    TextVector(Vec<String>),
    NumberMap(Vec<(String, i64)>),
    TextMap(Vec<(String, String)>),
}

/// The model of an environment value.
#[verifier::ext_equal]
pub ghost enum EnvVal {
    Num(i64),
    Text(Seq<char>),
    NumVec(Seq<i64>),
    TextVec(Seq<Seq<char>>),
    NumMap(Seq<(Seq<char>, i64)>),
    TextMap(Seq<(Seq<char>, Seq<char>)>),
}

impl View for EnvType {
    type V = EnvVal;

    open spec fn view(&self) -> EnvVal {
        match *self {
            EnvType::Number(n) => EnvVal::Num(n),
            EnvType::Text(ref s) => EnvVal::Text(s@),
            EnvType::NumberVector(ref v) => EnvVal::NumVec(v@),
            EnvType::TextVector(ref v) => EnvVal::TextVec(v@.map_values(|s: String| s@)),
            EnvType::NumberMap(ref m) => EnvVal::NumMap(
                m@.map_values(|p: (String, i64)| (p.0@, p.1)),
            ),
            EnvType::TextMap(ref m) => EnvVal::TextMap(
                m@.map_values(|p: (String, String)| (p.0@, p.1@)),
            ),
        }
    }
}

/// The model of an evaluation context.
#[verifier::ext_equal]
pub ghost struct CtxModel {
    pub stack: Seq<Val>,
    pub env: Seq<(Seq<char>, EnvVal)>,
    pub errors: Seq<Seq<char>>,
    pub branches: Seq<(TokenTypes, bool)>,
    pub output: Seq<Seq<char>>,
}

/// The model of a fresh context holding the given environment.
pub open spec fn sp_empty_ctx(env: Seq<(Seq<char>, EnvVal)>) -> CtxModel {
    CtxModel {
        stack: Seq::empty(),
        env: env,
        errors: Seq::empty(),
        branches: Seq::empty(),
        output: Seq::empty(),
    }
}

/// Looking a name up in an association list, from entry `i` on: the first
/// entry with that name decides.
pub open spec fn sp_assoc<V>(m: Seq<(Seq<char>, V)>, key: Seq<char>, i: int) -> Option<V>
    decreases m.len() - i,
{
    if i < 0 || i >= m.len() {
        None
    } else if m[i].0 == key {
        Some(m[i].1)
    } else {
        sp_assoc(m, key, i + 1)
    }
}

/// Looking a name up in an association list.
pub open spec fn sp_lookup<V>(m: Seq<(Seq<char>, V)>, key: Seq<char>) -> Option<V> {
    sp_assoc(m, key, 0)
}

/// Pushing a value on the value stack.
pub open spec fn sp_push(c: CtxModel, v: Val) -> CtxModel {
    CtxModel { stack: c.stack.push(v), ..c }
}

/// Popping the value stack: the popped value, if any, and the rest.
pub open spec fn sp_pop(c: CtxModel) -> (CtxModel, Option<Val>) {
    if c.stack.len() == 0 {
        (c, None)
    } else {
        (CtxModel { stack: c.stack.drop_last(), ..c }, Some(c.stack.last()))
    }
}

/// Recording a diagnostic.
pub open spec fn sp_err(c: CtxModel, m: Seq<char>) -> CtxModel {
    CtxModel { errors: c.errors.push(m), ..c }
}

/// Appending a rendered chunk to the output.
pub open spec fn sp_out(c: CtxModel, t: Seq<char>) -> CtxModel {
    CtxModel { output: c.output.push(t), ..c }
}

/// The top of the branch stack; an empty stack reads as an active sentinel.
pub open spec fn sp_branch_top(c: CtxModel) -> (TokenTypes, bool) {
    if c.branches.len() == 0 {
        (TokenTypes::INVALID, true)
    } else {
        c.branches.last()
    }
}

/// Whether statements currently execute: the top taken-flag.
pub open spec fn sp_active(c: CtxModel) -> bool {
    sp_branch_top(c).1
}

/// Opening a branch frame.
pub open spec fn sp_branch_push(c: CtxModel, k: TokenTypes, b: bool) -> CtxModel {
    CtxModel { branches: c.branches.push((k, b)), ..c }
}

/// Closing the innermost branch frame; closing nothing leaves the model as
/// it stands.
pub open spec fn sp_branch_pop(c: CtxModel) -> CtxModel {
    if c.branches.len() == 0 {
        c
    } else {
        CtxModel { branches: c.branches.drop_last(), ..c }
    }
}

/// The diagnostic for indexing a vector out of bounds.
pub open spec fn sp_invalid_vec_msg(key: Seq<char>, id: int) -> Seq<char> {
    "invalid id "@ + key + "["@ + spec_i64_dec(id) + "]"@
}

/// The diagnostic for a missing map key.
pub open spec fn sp_invalid_map_msg(key: Seq<char>, id: Seq<char>) -> Seq<char> {
    "invalid id "@ + key + "["@ + id + "]"@
}

/// Pushing a scalar environment value: absent names push nothing, and a
/// value with no single-scalar form is a diagnostic.
pub open spec fn sp_push_from_env(c: CtxModel, key: Seq<char>) -> CtxModel {
    match sp_lookup(c.env, key) {
        None => c,
        Some(EnvVal::Num(n)) => sp_push(c, Val::Num(n)),
        Some(EnvVal::Text(t)) => sp_push(c, Val::Text(t)),
        Some(_) => sp_err(c, "complex variable, must be parsed"@),
    }
}

/// Indexing a vector environment value: out-of-bounds indices are
/// diagnostics, absent names push nothing.
pub open spec fn sp_push_from_env_vector(c: CtxModel, key: Seq<char>, id: int) -> CtxModel {
    match sp_lookup(c.env, key) {
        None => c,
        Some(EnvVal::TextVec(v)) => if 0 <= id < v.len() {
            sp_push(c, Val::Text(v[id]))
        } else {
            sp_err(c, sp_invalid_vec_msg(key, id))
        },
        Some(EnvVal::NumVec(v)) => if 0 <= id < v.len() {
            sp_push(c, Val::Num(v[id]))
        } else {
            sp_err(c, sp_invalid_vec_msg(key, id))
        },
        Some(_) => sp_err(c, "complex variable, must be parsed"@),
    }
}

/// Indexing a map environment value: missing keys are diagnostics, absent
/// names push nothing.
pub open spec fn sp_push_from_env_map(c: CtxModel, key: Seq<char>, id: Seq<char>) -> CtxModel {
    match sp_lookup(c.env, key) {
        None => c,
        Some(EnvVal::TextMap(m)) => match sp_lookup(m, id) {
            Some(t) => sp_push(c, Val::Text(t)),
            None => sp_err(c, sp_invalid_map_msg(key, id)),
        },
        Some(EnvVal::NumMap(m)) => match sp_lookup(m, id) {
            Some(n) => sp_push(c, Val::Num(n)),
            None => sp_err(c, sp_invalid_map_msg(key, id)),
        },
        Some(_) => sp_err(c, "complex variable, must be parsed"@),
    }
}

/// The evaluation context of one render.
pub struct Context {
    pub the_stack: Vec<StackType>,
    pub the_environment: Vec<(String, EnvType)>,
    pub the_problems: Vec<String>,
    pub branches: Vec<(TokenTypes, bool)>,
    pub the_output: Vec<String>,
}

impl View for Context {
    type V = CtxModel;

    open spec fn view(&self) -> CtxModel {
        CtxModel {
            stack: self.the_stack@.map_values(|v: StackType| v@),
            env: self.the_environment@.map_values(|p: (String, EnvType)| (p.0@, p.1@)),
            errors: self.the_problems@.map_values(|s: String| s@),
            branches: self.branches@,
            output: self.the_output@.map_values(|s: String| s@),
        }
    }
}

impl Context {
    pub fn new() -> (r: Context)
        ensures
            r@ == sp_empty_ctx(Seq::<(Seq<char>, EnvVal)>::empty()),
    {
        let r = Context {
            the_stack: Vec::new(),
            the_environment: Vec::new(),
            the_problems: Vec::new(),
            branches: Vec::new(),
            the_output: Vec::new(),
        };
        proof {
            assert(r@ =~~= sp_empty_ctx(Seq::<(Seq<char>, EnvVal)>::empty()));
        }
        r
    }

    /// The innermost branch frame, or an active sentinel if no branch is
    /// open.
    pub fn branch_is_taken(&self) -> (r: (TokenTypes, bool))
        ensures
            r == sp_branch_top(self@),
    {
        if self.branches.len() == 0 {
            (TokenTypes::INVALID, true)
        } else {
            self.branches[self.branches.len() - 1]
        }
    }

    pub fn branch_push(&mut self, ttype: TokenTypes, cond: bool)
        ensures
            final(self)@ == sp_branch_push(old(self)@, ttype, cond),
    {
        self.branches.push((ttype, cond));
        proof {
            assert(self@ =~~= sp_branch_push(old(self)@, ttype, cond));
        }
    }

    pub fn branch_pop(&mut self) -> (r: Result<(), ()>)
        ensures
            final(self)@ == sp_branch_pop(old(self)@),
            r is Ok <==> old(self)@.branches.len() > 0,
    {
        match self.branches.pop() {
            Some(_) => {
                proof {
                    assert(self@ =~~= sp_branch_pop(old(self)@));
                }
                Ok(())
            },
            None => {
                proof {
                    assert(self@ =~~= sp_branch_pop(old(self)@));
                }
                Err(())
            },
        }
    }

    pub fn errors_push(&mut self, error: String)
        ensures
            final(self)@ == sp_err(old(self)@, error@),
    {
        self.the_problems.push(error);
        proof {
            assert(self@ =~~= sp_err(old(self)@, error@));
        }
    }

    /// The diagnostics recorded so far, in order.
    pub fn errors_it(&self) -> (r: &Vec<String>)
        ensures
            r@.map_values(|s: String| s@) == self@.errors,
    {
        &self.the_problems
    }

    /// The output chunks appended so far, in order.
    pub fn output_it(&self) -> (r: &Vec<String>)
        ensures
            r@.map_values(|s: String| s@) == self@.output,
    {
        &self.the_output
    }

    pub fn output_push(&mut self, chunk: String)
        ensures
            final(self)@ == sp_out(old(self)@, chunk@),
    {
        self.the_output.push(chunk);
        proof {
            assert(self@ =~~= sp_out(old(self)@, chunk@));
        }
    }

    pub fn stack_push(&mut self, data: StackType)
        ensures
            final(self)@ == sp_push(old(self)@, data@),
    {
        self.the_stack.push(data);
        proof {
            assert(self@ =~~= sp_push(old(self)@, data@));
        }
    }

    pub fn stack_pop(&mut self) -> (r: Option<StackType>)
        ensures
            final(self)@ == sp_pop(old(self)@).0,
            (match r {
                Some(v) => sp_pop(old(self)@).1 == Some(v@),
                None => sp_pop(old(self)@).1 is None,
            }),
    {
        let r = self.the_stack.pop();
        proof {
            assert(self@ =~~= sp_pop(old(self)@).0);
        }
        r
    }

    /// Binds a name to a value unless the name is already bound.
    pub fn env_add_or_update(&mut self, key: &String, data: EnvType)
        ensures
            final(self)@ == (if sp_lookup(old(self)@.env, key@) is Some {
                old(self)@
            } else {
                CtxModel { env: old(self)@.env.push((key@, data@)), ..old(self)@ }
            }),
    {
        if self.env_find(key).is_none() {
            self.the_environment.push((key.clone(), data));
            proof {
                assert(self@ =~~= (CtxModel {
                    env: old(self)@.env.push((key@, data@)),
                    ..old(self)@
                }));
            }
        }
    }

    /// The index of the binding of a name, if the name is bound.
    fn env_find(&self, key: &String) -> (r: Option<usize>)
        ensures
            (match r {
                Some(i) => i < self@.env.len() && self@.env[i as int].0 == key@ && sp_lookup(
                    self@.env,
                    key@,
                ) == Some(self@.env[i as int].1),
                None => sp_lookup(self@.env, key@) is None,
            }),
    {
        let mut i: usize = 0;
        while i < self.the_environment.len()
            invariant
                0 <= i <= self.the_environment.len(),
                self@.env.len() == self.the_environment.len(),
                sp_lookup(self@.env, key@) == sp_assoc(self@.env, key@, i as int),
            decreases self.the_environment.len() - i,
        {
            if str_eq(self.the_environment[i].0.as_str(), key.as_str()) {
                return Some(i);
            }
            i = i + 1;
        }
        None
    }

    pub fn env_get(&self, key: &String) -> (r: Option<&EnvType>)
        ensures
            (match r {
                Some(v) => sp_lookup(self@.env, key@) == Some(v@),
                None => sp_lookup(self@.env, key@) is None,
            }),
    {
        match self.env_find(key) {
            Some(i) => Some(&self.the_environment[i].1),
            None => None,
        }
    }

    pub fn env_key_exists(&self, key: &String) -> (r: bool)
        ensures
            r == (sp_lookup(self@.env, key@) is Some),
    {
        self.env_find(key).is_some()
    }

    /// Pushes the scalar value bound to a name; see `sp_push_from_env`.
    pub fn stack_push_from_env(&mut self, key: &String)
        ensures
            final(self)@ == sp_push_from_env(old(self)@, key@),
    {
        let found = self.env_find(key);
        match found {
            None => {},
            Some(i) => {
                let pushed: Result<StackType, ()> = match &self.the_environment[i].1 {
                    EnvType::Number(n) => Ok(StackType::Number(*n)),
                    EnvType::Text(t) => Ok(StackType::Text(t.clone())),
                    _ => Err(()),
                };
                match pushed {
                    Ok(v) => self.the_stack.push(v),
                    Err(_) => self.the_problems.push(
                        String::from_str("complex variable, must be parsed"),
                    ),
                }
            },
        }
        proof {
            assert(self@ =~~= sp_push_from_env(old(self)@, key@));
        }
    }

    /// Pushes one element of a vector bound to a name; see
    /// `sp_push_from_env_vector`.
    pub fn stack_push_from_env_vector(&mut self, key: &String, id: usize)
        ensures
            final(self)@ == sp_push_from_env_vector(old(self)@, key@, id as int),
    {
        let found = self.env_find(key);
        match found {
            None => {},
            Some(i) => {
                let outcome: Result<StackType, String> = match &self.the_environment[i].1 {
                    EnvType::TextVector(v) => {
                        if id < v.len() {
                            Ok(StackType::Text(v[id].clone()))
                        } else {
                            Err(invalid_vec_message(key, id))
                        }
                    },
                    EnvType::NumberVector(v) => {
                        if id < v.len() {
                            Ok(StackType::Number(v[id]))
                        } else {
                            Err(invalid_vec_message(key, id))
                        }
                    },
                    _ => Err(String::from_str("complex variable, must be parsed")),
                };
                match outcome {
                    Ok(v) => self.the_stack.push(v),
                    Err(e) => self.the_problems.push(e),
                }
            },
        }
        proof {
            assert(self@ =~~= sp_push_from_env_vector(old(self)@, key@, id as int));
        }
    }

    /// Pushes one entry of a map bound to a name; see
    /// `sp_push_from_env_map`.
    pub fn stack_push_from_env_map(&mut self, key: &String, id: &String)
        ensures
            final(self)@ == sp_push_from_env_map(old(self)@, key@, id@),
    {
        let found = self.env_find(key);
        match found {
            None => {},
            Some(i) => {
                let outcome: Result<StackType, String> = match &self.the_environment[i].1 {
                    EnvType::TextMap(m) => {
                        match assoc_find_text(m, id) {
                            Some(t) => Ok(StackType::Text(t)),
                            None => Err(invalid_map_message(key, id)),
                        }
                    },
                    EnvType::NumberMap(m) => {
                        match assoc_find_num(m, id) {
                            Some(n) => Ok(StackType::Number(n)),
                            None => Err(invalid_map_message(key, id)),
                        }
                    },
                    _ => Err(String::from_str("complex variable, must be parsed")),
                };
                match outcome {
                    Ok(v) => self.the_stack.push(v),
                    Err(e) => self.the_problems.push(e),
                }
            },
        }
        proof {
            assert(self@ =~~= sp_push_from_env_map(old(self)@, key@, id@));
        }
    }
}

/// Looks a key up in a text association list.
fn assoc_find_text(m: &Vec<(String, String)>, key: &String) -> (r: Option<String>)
    ensures
        (match r {
            Some(t) => sp_lookup(m@.map_values(|p: (String, String)| (p.0@, p.1@)), key@) == Some(
                t@,
            ),
            None => sp_lookup(m@.map_values(|p: (String, String)| (p.0@, p.1@)), key@) is None,
        }),
{
    let ghost gm = m@.map_values(|p: (String, String)| (p.0@, p.1@));
    let mut i: usize = 0;
    while i < m.len()
        invariant
            0 <= i <= m.len(),
            gm == m@.map_values(|p: (String, String)| (p.0@, p.1@)),
            gm.len() == m.len(),
            sp_lookup(gm, key@) == sp_assoc(gm, key@, i as int),
        decreases m.len() - i,
    {
        if str_eq(m[i].0.as_str(), key.as_str()) {
            return Some(m[i].1.clone());
        }
        i = i + 1;
    }
    None
}

/// Looks a key up in a number association list.
fn assoc_find_num(m: &Vec<(String, i64)>, key: &String) -> (r: Option<i64>)
    ensures
        (match r {
            Some(n) => sp_lookup(m@.map_values(|p: (String, i64)| (p.0@, p.1)), key@) == Some(n),
            None => sp_lookup(m@.map_values(|p: (String, i64)| (p.0@, p.1)), key@) is None,
        }),
{
    let ghost gm = m@.map_values(|p: (String, i64)| (p.0@, p.1));
    let mut i: usize = 0;
    while i < m.len()
        invariant
            0 <= i <= m.len(),
            gm == m@.map_values(|p: (String, i64)| (p.0@, p.1)),
            gm.len() == m.len(),
            sp_lookup(gm, key@) == sp_assoc(gm, key@, i as int),
        decreases m.len() - i,
    {
        if str_eq(m[i].0.as_str(), key.as_str()) {
            return Some(m[i].1);
        }
        i = i + 1;
    }
    None
}

/// Builds the out-of-bounds diagnostic for a vector index.
fn invalid_vec_message(key: &String, id: usize) -> (r: String)
    ensures
        r@ == sp_invalid_vec_msg(key@, id as int),
{
    let mut s = String::from_str("invalid id ");
    s.append(key.as_str());
    s.append("[");
    let t = u64_text(id as u64);
    s.append(t.as_str());
    s.append("]");
    proof {
        assert(s@ =~= sp_invalid_vec_msg(key@, id as int));
    }
    s
}

/// Builds the missing-key diagnostic for a map index.
fn invalid_map_message(key: &String, id: &String) -> (r: String)
    ensures
        r@ == sp_invalid_map_msg(key@, id@),
{
    let mut s = String::from_str("invalid id ");
    s.append(key.as_str());
    s.append("[");
    s.append(id.as_str());
    s.append("]");
    proof {
        assert(s@ =~= sp_invalid_map_msg(key@, id@));
    }
    s
}

} // verus!
