//! Name scopes and `{{name}}` template rendering.

use vstd::prelude::*;
use crate::error::{ErrorView, FlowError};
use crate::text::{
    chars_of, copy_range, find_pair, find_pair_exec, lemma_find_pair_bounds, string_of, trim,
    trimmed,
};

verus! {

/// The value bound to `name` in `entries`: a later binding hides an earlier one.
pub open spec fn lookup(entries: Seq<(Seq<char>, Seq<char>)>, name: Seq<char>) -> Option<
    Seq<char>,
>
    decreases entries.len(),
{
    if entries.len() == 0 {
        None
    } else if entries.last().0 == name {
        Some(entries.last().1)
    } else {
        lookup(entries.drop_last(), name)
    }
}

/// Name/value bindings; a later binding of a name hides an earlier one.
#[derive(Debug, Clone)]
pub struct Scope {
    entries: Vec<(String, String)>,
}

impl View for Scope {
    type V = Seq<(Seq<char>, Seq<char>)>;

    closed spec fn view(&self) -> Seq<(Seq<char>, Seq<char>)> {
        self.entries@.map_values(|e: (String, String)| (e.0@, e.1@))
    }
}

impl Scope {
    /// A scope without bindings.
    pub fn new() -> (r: Scope)
        ensures
            r@ == Seq::<(Seq<char>, Seq<char>)>::empty(),
    {
        Scope { entries: Vec::new() }
    }

    /// Binds `name` to `value`, hiding any earlier binding of `name`.
    pub fn insert(&mut self, name: String, value: String)
        ensures
            final(self)@ == old(self)@.push((name@, value@)),
    {
        self.entries.push((name, value));
        assert(final(self)@ =~= old(self)@.push((name@, value@)));
    }

    /// The value bound to `name`.
    pub fn get(&self, name: &String) -> (r: Option<String>)
        ensures
            r matches Some(v) ==> lookup(self@, name@) == Some(v@),
            r is None ==> lookup(self@, name@) is None,
    {
        let mut i: usize = self.entries.len();
        assert(self@.take(i as int) == self@);
        while i > 0
            invariant
                i <= self.entries@.len(),
                lookup(self@, name@) == lookup(self@.take(i as int), name@),
            decreases i,
        {
            let entry = &self.entries[i - 1];
            assert(self@.take(i as int).drop_last() == self@.take(i - 1));
            if entry.0 == *name {
                return Some(entry.1.clone());
            }
            i = i - 1;
        }
        None
    }
}

/// The value of a placeholder name: variables first, then credentials, then
/// environment values.
pub open spec fn scope_value(
    vars: Seq<(Seq<char>, Seq<char>)>,
    creds: Seq<(Seq<char>, Seq<char>)>,
    env: Seq<(Seq<char>, Seq<char>)>,
    name: Seq<char>,
) -> Option<Seq<char>> {
    match lookup(vars, name) {
        Some(v) => Some(v),
        None => match lookup(creds, name) {
            Some(v) => Some(v),
            None => lookup(env, name),
        },
    }
}

/// The rendering of `t` from position `pos` on: text is copied, and each
/// `{{ name }}` is replaced by the value of the trimmed name. Replacement text
/// is not scanned again.
pub open spec fn render_from(
    t: Seq<char>,
    pos: nat,
    vars: Seq<(Seq<char>, Seq<char>)>,
    creds: Seq<(Seq<char>, Seq<char>)>,
    env: Seq<(Seq<char>, Seq<char>)>,
) -> Result<Seq<char>, ErrorView>
    decreases t.len() - pos,
{
    if pos > t.len() {
        Ok(Seq::empty())
    } else {
        match find_pair(t, '{', pos) {
            None => Ok(t.subrange(pos as int, t.len() as int)),
            Some(i) => match find_pair(t, '}', i + 2) {
                None => Err(ErrorView::InvalidTemplate("unclosed placeholder in template"@)),
                Some(j) => {
                    let name = trimmed(t.subrange((i + 2) as int, j as int));
                    if name.len() == 0 {
                        Err(ErrorView::InvalidTemplate("empty placeholder in template"@))
                    } else {
                        match scope_value(vars, creds, env, name) {
                            None => Err(ErrorView::MissingVariable(name)),
                            Some(v) => {
                                proof {
                                    lemma_find_pair_bounds(t, '{', pos);
                                    lemma_find_pair_bounds(t, '}', i + 2);
                                }
                                match render_from(t, j + 2, vars, creds, env) {
                                    Ok(rest) => Ok(t.subrange(pos as int, i as int) + v + rest),
                                    Err(e) => Err(e),
                                }
                            },
                        }
                    }
                },
            },
        }
    }
}

/// The rendering of the whole template `t`.
pub open spec fn render(
    t: Seq<char>,
    vars: Seq<(Seq<char>, Seq<char>)>,
    creds: Seq<(Seq<char>, Seq<char>)>,
    env: Seq<(Seq<char>, Seq<char>)>,
) -> Result<Seq<char>, ErrorView> {
    render_from(t, 0, vars, creds, env)
}

/// The value of a placeholder name, looked up in the three scopes in order.
fn scope_lookup(vars: &Scope, creds: &Scope, env: &Scope, name: &String) -> (r: Option<String>)
    ensures
        r matches Some(v) ==> scope_value(vars@, creds@, env@, name@) == Some(v@),
        r is None ==> scope_value(vars@, creds@, env@, name@) is None,
{
    match vars.get(name) {
        Some(v) => Some(v),
        None => match creds.get(name) {
            Some(v) => Some(v),
            None => env.get(name),
        },
    }
}

/// Renders `template`, replacing each `{{ name }}` by the value of `name` in
/// `vars`, `creds` or `env`, first hit winning.
pub fn render_template(template: &str, vars: &Scope, creds: &Scope, env: &Scope) -> (r: Result<
    String,
    FlowError,
>)
    ensures
        match render(template@, vars@, creds@, env@) {
            Ok(s) => r matches Ok(o) && o@ == s,
            Err(e) => r matches Err(f) && f@ == e,
        },
{
    let t = chars_of(template);
    let mut out: Vec<char> = Vec::new();
    let mut pos: usize = 0;
    while pos <= t.len()
        invariant
            pos <= t@.len(),
            t@ == template@,
            match render_from(t@, pos as nat, vars@, creds@, env@) {
                Ok(rest) => render(t@, vars@, creds@, env@) == Ok::<Seq<char>, ErrorView>(
                    out@ + rest,
                ),
                Err(e) => render(t@, vars@, creds@, env@) == Err::<Seq<char>, ErrorView>(e),
            },
        decreases t@.len() - pos,
    {
        proof {
            lemma_find_pair_bounds(t@, '{', pos as nat);
        }
        match find_pair_exec(t.as_slice(), '{', pos) {
            None => {
                let rest = copy_range(t.as_slice(), pos, t.len());
                let mut all = out;
                let mut k: usize = 0;
                while k < rest.len()
                    invariant
                        k <= rest@.len(),
                        all@ == out@ + rest@.take(k as int),
                    decreases rest@.len() - k,
                {
                    all.push(rest[k]);
                    k = k + 1;
                    assert(all@ == out@ + rest@.take(k as int));
                }
                assert(rest@.take(k as int) == rest@);
                return Ok(string_of(all.as_slice()));
            },
            Some(i) => {
                proof {
                    lemma_find_pair_bounds(t@, '}', (i + 2) as nat);
                }
                match find_pair_exec(t.as_slice(), '}', i + 2) {
                    None => {
                        return Err(
                            FlowError::InvalidTemplate(
                                String::from_str("unclosed placeholder in template"),
                            ),
                        );
                    },
                    Some(j) => {
                        let raw = copy_range(t.as_slice(), i + 2, j);
                        let name_chars = trim(raw.as_slice());
                        if name_chars.len() == 0 {
                            return Err(
                                FlowError::InvalidTemplate(
                                    String::from_str("empty placeholder in template"),
                                ),
                            );
                        }
                        let name = string_of(name_chars.as_slice());
                        match scope_lookup(vars, creds, env, &name) {
                            None => {
                                return Err(FlowError::MissingVariable(name));
                            },
                            Some(v) => {
                                let vc = chars_of(v.as_str());
                                let ghost before = out@;
                                let mut k: usize = pos;
                                while k < i
                                    invariant
                                        pos <= k <= i < t@.len(),
                                        out@ == before + t@.subrange(pos as int, k as int),
                                    decreases i - k,
                                {
                                    out.push(t[k]);
                                    k = k + 1;
                                    assert(out@ == before + t@.subrange(pos as int, k as int));
                                }
                                let ghost mid = out@;
                                let mut m: usize = 0;
                                while m < vc.len()
                                    invariant
                                        m <= vc@.len(),
                                        out@ == mid + vc@.take(m as int),
                                    decreases vc@.len() - m,
                                {
                                    out.push(vc[m]);
                                    m = m + 1;
                                    assert(out@ == mid + vc@.take(m as int));
                                }
                                assert(vc@.take(m as int) == vc@);
                                proof {
                                    match render_from(t@, (j + 2) as nat, vars@, creds@, env@) {
                                        Ok(rest) => {
                                            assert(before + t@.subrange(pos as int, i as int)
                                                + vc@ + rest == before + (t@.subrange(
                                                pos as int,
                                                i as int,
                                            ) + vc@ + rest));
                                        },
                                        Err(_) => {},
                                    }
                                }
                                pos = j + 2;
                            },
                        }
                    },
                }
            },
        }
    }
    Ok(string_of(out.as_slice()))
}

} // verus!
