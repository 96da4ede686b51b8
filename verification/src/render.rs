//! The template renderer: expands `{name}` placeholders in a configured line
//! template against a binding map, one output line per call.

use vstd::prelude::*;

verus! {

/// Why one rendering pass failed.
#[derive(Debug, PartialEq)]
pub enum RenderError {
    /// A placeholder named something that the binding map does not hold;
    /// the name is carried along.
    MissingBinding(String),
    /// The template's braces do not pair up.
    MalformedTemplate,
}

/// A mapping from placeholder name to value. A later entry for the same
/// name shadows an earlier one, as `as_map` describes.
#[derive(Debug)]
pub struct Bindings {
    pairs: Vec<(String, String)>,
}

/// The mapping that a pair list denotes: entries are applied left to right,
/// so the rightmost entry for a name wins.
pub open spec fn map_of(pairs: Seq<(String, String)>) -> Map<Seq<char>, Seq<char>>
    decreases pairs.len(),
{
    if pairs.len() == 0 {
        Map::empty()
    } else {
        map_of(pairs.drop_last()).insert(pairs.last().0@, pairs.last().1@)
    }
}

impl Bindings {
    /// The mapping this value denotes.
    pub closed spec fn as_map(&self) -> Map<Seq<char>, Seq<char>> {
        map_of(self.pairs@)
    }

    pub fn new() -> (b: Bindings)
        ensures
            b.as_map() == Map::<Seq<char>, Seq<char>>::empty(),
    {
        let b = Bindings { pairs: Vec::new() };
        proof {
            assert(b.pairs@.len() == 0);
        }
        b
    }

    /// Binds `key` to `value`; an earlier binding of the same name is
    /// shadowed.
    pub fn insert(&mut self, key: String, value: String)
        ensures
            final(self).as_map() == old(self).as_map().insert(key@, value@),
    {
        self.pairs.push((key, value));
        proof {
            assert(self.pairs@.drop_last() =~= old(self).pairs@);
        }
    }

    /// Looks a name up; the latest binding for it wins.
    #[verifier::loop_isolation(false)]
    pub fn get(&self, key: &String) -> (r: Option<&String>)
        ensures
            match r {
                Some(v) => self.as_map().contains_key(key@) && self.as_map()[key@] == v@,
                None => !self.as_map().contains_key(key@),
            },
    {
        let n = self.pairs.len();
        let mut j = n;
        proof {
            assert(self.pairs@.take(n as int) =~= self.pairs@);
        }
        while j > 0
            invariant
                0 <= j <= n,
                map_of(self.pairs@).contains_key(key@) == map_of(
                    self.pairs@.take(j as int),
                ).contains_key(key@),
                map_of(self.pairs@).contains_key(key@) ==> map_of(self.pairs@)[key@] == map_of(
                    self.pairs@.take(j as int),
                )[key@],
            decreases j,
        {
            proof {
                let taken = self.pairs@.take(j as int);
                assert(taken.drop_last() =~= self.pairs@.take(j as int - 1));
                assert(taken.last() == self.pairs@[j as int - 1]);
            }
            let p = &self.pairs[j - 1];
            if p.0 == *key {
                return Some(&p.1);
            }
            j = j - 1;
        }
        proof {
            assert(self.pairs@.take(0).len() == 0);
        }
        None
    }
}

/// The outcome that the rendering rules assign to a template: the expanded
/// text, or the failure the template runs into first.
pub enum Rendering {
    Done(Seq<char>),
    Missing(Seq<char>),
    Malformed,
}

/// Prefixes already-expanded text onto the outcome of the rest.
pub open spec fn emit(prefix: Seq<char>, rest: Rendering) -> Rendering {
    match rest {
        Rendering::Done(s) => Rendering::Done(prefix + s),
        _ => rest,
    }
}

/// What rendering a template against a binding map yields: plain characters
/// are copied, `{` opens a placeholder, and a bare `}` is malformed.
pub open spec fn spec_render(t: Seq<char>, m: Map<Seq<char>, Seq<char>>) -> Rendering
    decreases t.len(), 1int,
{
    if t.len() == 0 {
        Rendering::Done(Seq::empty())
    } else if t[0] == '}' {
        Rendering::Malformed
    } else if t[0] == '{' {
        spec_render_ph(t.drop_first(), Seq::empty(), m)
    } else {
        emit(seq![t[0]], spec_render(t.drop_first(), m))
    }
}

/// Inside a placeholder, with `name` the characters read so far: a closing
/// brace looks the name up and substitutes its value; a second opening brace
/// or the end of the template leaves the braces unbalanced.
pub open spec fn spec_render_ph(t: Seq<char>, name: Seq<char>, m: Map<Seq<char>, Seq<char>>) -> Rendering
    decreases t.len(), 0int,
{
    if t.len() == 0 {
        Rendering::Malformed
    } else if t[0] == '{' {
        Rendering::Malformed
    } else if t[0] == '}' {
        if m.contains_key(name) {
            emit(m[name], spec_render(t.drop_first(), m))
        } else {
            Rendering::Missing(name)
        }
    } else {
        spec_render_ph(t.drop_first(), name.push(t[0]), m)
    }
}

/// Emitting an empty prefix changes nothing.
proof fn lemma_emit_empty(r: Rendering)
    ensures
        emit(Seq::empty(), r) == r,
{
    match r {
        Rendering::Done(s) => {
            assert(Seq::empty() + s =~= s);
        },
        _ => {},
    }
}

/// Emitting two prefixes in turn emits their concatenation.
proof fn lemma_emit_emit(a: Seq<char>, b: Seq<char>, r: Rendering)
    ensures
        emit(a, emit(b, r)) == emit(a + b, r),
{
    match r {
        Rendering::Done(s) => {
            assert(a + (b + s) =~= (a + b) + s);
        },
        _ => {},
    }
}

/// Reading plain name characters one by one moves them from the template
/// into the collected name.
proof fn lemma_ph_scan(t: Seq<char>, a: int, j: int, acc: Seq<char>, m: Map<Seq<char>, Seq<char>>)
    requires
        0 <= a <= j <= t.len(),
        forall|k: int| a <= k < j ==> t[k] != '{' && t[k] != '}',
    ensures
        spec_render_ph(t.skip(a), acc, m) == spec_render_ph(t.skip(j), acc + t.subrange(a, j), m),
    decreases j - a,
{
    if a == j {
        assert(acc + t.subrange(a, j) =~= acc);
    } else {
        let sk = t.skip(a);
        assert(sk[0] == t[a]);
        assert(sk.drop_first() =~= t.skip(a + 1));
        lemma_ph_scan(t, a + 1, j, acc.push(t[a]), m);
        assert(acc.push(t[a]) + t.subrange(a + 1, j) =~= acc + t.subrange(a, j));
    }
}

/// The first position at or after `from` where a brace stands, or the
/// length of the string when no brace remains.
fn scan_name_end(t: &str, from: usize) -> (j: usize)
    requires
        from <= t@.len(),
    ensures
        from <= j <= t@.len(),
        forall|k: int| from <= k < j ==> t@[k] != '{' && t@[k] != '}',
        j < t@.len() ==> (t@[j as int] == '{' || t@[j as int] == '}'),
{
    let n = t.unicode_len();
    let mut j = from;
    while j < n
        invariant
            n == t@.len(),
            from <= j <= n,
            forall|k: int| from <= k < j ==> t@[k] != '{' && t@[k] != '}',
        ensures
            n == t@.len(),
            from <= j <= n,
            forall|k: int| from <= k < j ==> t@[k] != '{' && t@[k] != '}',
            j < n ==> (t@[j as int] == '{' || t@[j as int] == '}'),
        decreases n - j,
    {
        let c = t.get_char(j);
        if c == '{' || c == '}' {
            break ;
        }
        j = j + 1;
    }
    j
}

/// Expands every `{name}` placeholder in `template` with the value bound to
/// that name. Fails with `MissingBinding` when a placeholder names an entry
/// the map does not hold, and with `MalformedTemplate` when the braces do
/// not pair up; entries that no placeholder names are ignored.
#[verifier::loop_isolation(false)]
pub fn render(template: &str, bindings: &Bindings) -> (r: Result<String, RenderError>)
    ensures
        match r {
            Ok(s) => spec_render(template@, bindings.as_map()) == Rendering::Done(s@),
            Err(RenderError::MissingBinding(name)) => spec_render(template@, bindings.as_map())
                == Rendering::Missing(name@),
            Err(RenderError::MalformedTemplate) => spec_render(template@, bindings.as_map())
                == Rendering::Malformed,
        },
{
    let ghost m = bindings.as_map();
    let n = template.unicode_len();
    let mut out = String::new();
    let mut i: usize = 0;
    proof {
        assert(template@.skip(0) =~= template@);
        lemma_emit_empty(spec_render(template@, m));
    }
    while i < n
        invariant
            0 <= i <= n,
            emit(out@, spec_render(template@.skip(i as int), m)) == spec_render(template@, m),
        decreases n - i,
    {
        proof {
            let sk = template@.skip(i as int);
            assert(sk[0] == template@[i as int]);
            assert(sk.drop_first() =~= template@.skip(i as int + 1));
        }
        let c = template.get_char(i);
        if c == '}' {
            return Err(RenderError::MalformedTemplate);
        } else if c == '{' {
            let j = scan_name_end(template, i + 1);
            let ghost name_chars = template@.subrange(i as int + 1, j as int);
            proof {
                lemma_ph_scan(template@, i as int + 1, j as int, Seq::empty(), m);
                assert(Seq::empty() + name_chars =~= name_chars);
                assert(spec_render(template@.skip(i as int), m) == spec_render_ph(
                    template@.skip(j as int),
                    name_chars,
                    m,
                ));
            }
            if j == n {
                proof {
                    assert(template@.skip(j as int).len() == 0);
                }
                return Err(RenderError::MalformedTemplate);
            }
            proof {
                let skj = template@.skip(j as int);
                assert(skj[0] == template@[j as int]);
                assert(skj.drop_first() =~= template@.skip(j as int + 1));
            }
            let cj = template.get_char(j);
            if cj == '{' {
                return Err(RenderError::MalformedTemplate);
            }
            let name = template.substring_char(i + 1, j).to_owned();
            match bindings.get(&name) {
                None => {
                    return Err(RenderError::MissingBinding(name));
                },
                Some(v) => {
                    let ghost pre = out@;
                    out.append(v.as_str());
                    proof {
                        lemma_emit_emit(pre, v@, spec_render(template@.skip(j as int + 1), m));
                    }
                    i = j + 1;
                },
            }
        } else {
            let ghost pre = out@;
            let piece = template.substring_char(i, i + 1);
            proof {
                assert(piece@ =~= seq![template@[i as int]]);
            }
            out.append(piece);
            proof {
                lemma_emit_emit(pre, piece@, spec_render(template@.skip(i as int + 1), m));
            }
            i = i + 1;
        }
    }
    proof {
        assert(template@.skip(n as int).len() == 0);
    }
    Ok(out)
}

/// Rendering is a pure function of the template and the binding map: any two
/// renderings of the same template against the same map yield the same
/// output string, every time.
pub proof fn lemma_render_deterministic(
    t: Seq<char>,
    m: Map<Seq<char>, Seq<char>>,
    r1: Seq<char>,
    r2: Seq<char>,
)
    requires
        spec_render(t, m) == Rendering::Done(r1),
        spec_render(t, m) == Rendering::Done(r2),
    ensures
        r1 == r2,
{
}

} // verus!
