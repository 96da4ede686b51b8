//! The batch formatting pipeline: building the binding map of a batch,
//! rendering one line per target group, and the end-to-end formatting of a
//! whole batch against the configured line templates.

use vstd::prelude::*;

use crate::domain::FormatLines;
use crate::domain::PromotionBatch;
use crate::domain::Targets;
use crate::domain::chunks;
use crate::domain::models_of;
use crate::domain::promotion_kind;
use crate::domain::spec_joined;
use crate::domain::spec_line_for;
use crate::domain::spec_promotion_kind;
use crate::render::Bindings;
use crate::render::RenderError;
use crate::render::Rendering;
use crate::render::render;
use crate::render::spec_render;

verus! {

/// The binding map of a batch: its instance, source, destination and
/// promotion type under their placeholder names.
pub open spec fn spec_mapify(batch: PromotionBatch) -> Map<Seq<char>, Seq<char>> {
    Map::<Seq<char>, Seq<char>>::empty().insert("instance"@, batch.instance@).insert(
        "source"@,
        batch.source@,
    ).insert("destination"@, batch.destination@).insert(
        "promotion_type"@,
        batch.promotion_type@,
    )
}

/// Builds the binding map for one batch.
pub fn mapify(batch: PromotionBatch) -> (args: Bindings)
    ensures
        args.as_map() == spec_mapify(batch),
{
    let mut args = Bindings::new();
    args.insert("instance".to_owned(), batch.instance);
    args.insert("source".to_owned(), batch.source);
    args.insert("destination".to_owned(), batch.destination);
    args.insert("promotion_type".to_owned(), batch.promotion_type);
    args
}

/// The outcome of rendering one line per target group.
pub enum RenderedLines {
    Done(Seq<Seq<char>>),
    Missing(Seq<char>),
    Malformed,
}

/// What rendering the groups yields: for each group in order, the group's
/// display join is bound to `targets` and the line template is rendered
/// once; the first failure wins.
pub open spec fn spec_group_lines(
    groups: Seq<Seq<Seq<char>>>,
    m: Map<Seq<char>, Seq<char>>,
    line: Seq<char>,
) -> RenderedLines
    decreases groups.len(),
{
    if groups.len() == 0 {
        RenderedLines::Done(Seq::empty())
    } else {
        match spec_render(line, m.insert("targets"@, spec_joined(groups[0]))) {
            Rendering::Done(s) => match spec_group_lines(groups.drop_first(), m, line) {
                RenderedLines::Done(rest) => RenderedLines::Done(seq![s] + rest),
                e => e,
            },
            Rendering::Missing(n) => RenderedLines::Missing(n),
            Rendering::Malformed => RenderedLines::Malformed,
        }
    }
}

/// Renders one output line per target group, in order: each group's display
/// join is bound to `targets` in the binding map and the line template is
/// rendered once for it. The groups are consumed; the map keeps the binding
/// of the last group tried.
#[verifier::loop_isolation(false)]
pub fn target_lines(args: &mut Bindings, batches: &mut Vec<Targets>, line: &str) -> (r: Result<
    Vec<String>,
    RenderError,
>)
    ensures
        final(batches)@.len() == 0,
        final(args).as_map() == old(args).as_map() || exists|v: Seq<char>|
            final(args).as_map() == old(args).as_map().insert("targets"@, v),
        match r {
            Ok(lines) => spec_group_lines(models_of(old(batches)@), old(args).as_map(), line@)
                == RenderedLines::Done(lines.deep_view()),
            Err(RenderError::MissingBinding(name)) => spec_group_lines(
                models_of(old(batches)@),
                old(args).as_map(),
                line@,
            ) == RenderedLines::Missing(name@),
            Err(RenderError::MalformedTemplate) => spec_group_lines(
                models_of(old(batches)@),
                old(args).as_map(),
                line@,
            ) == RenderedLines::Malformed,
        },
{
    let ghost g0 = models_of(old(batches)@);
    let ghost m0 = old(args).as_map();
    let mut lines: Vec<String> = Vec::new();
    let ghost mut done: int = 0;
    proof {
        assert(g0.skip(0) =~= g0);
        assert(lines.deep_view() =~= Seq::<Seq<char>>::empty());
        match spec_group_lines(g0, m0, line@) {
            RenderedLines::Done(rest) => {
                assert(lines.deep_view() + rest =~= rest);
            },
            _ => {},
        }
    }
    while batches.len() > 0
        invariant
            0 <= done <= g0.len(),
            models_of(batches@) == g0.skip(done),
            done == 0 ==> args.as_map() == m0,
            done > 0 ==> args.as_map() == m0.insert("targets"@, spec_joined(g0[done - 1])),
            match spec_group_lines(g0.skip(done), m0, line@) {
                RenderedLines::Done(rest) => spec_group_lines(g0, m0, line@)
                    == RenderedLines::Done(lines.deep_view() + rest),
                e => spec_group_lines(g0, m0, line@) == e,
            },
        decreases batches@.len(),
    {
        proof {
            assert(g0.skip(done).len() == batches@.len());
            assert(models_of(batches@)[0] == batches@[0].model());
        }
        let ghost obs = batches@;
        let group = batches.remove(0);
        proof {
            assert(group.model() == g0.skip(done)[0]);
            assert(g0.skip(done)[0] == g0[done]);
            assert(batches@ =~= obs.skip(1));
            assert forall|i: int| 0 <= i < batches@.len() implies models_of(batches@)[i] == g0.skip(
                done + 1,
            )[i] by {
                assert(models_of(obs)[i + 1] == obs[i + 1].model());
                assert(obs[i + 1] == batches@[i]);
                assert(g0.skip(done)[i + 1] == g0.skip(done + 1)[i]);
            }
            assert(models_of(batches@) =~= g0.skip(done + 1));
        }
        let joined = group.joined();
        let ghost mpre = args.as_map();
        args.insert("targets".to_owned(), joined);
        proof {
            assert(args.as_map() =~= m0.insert("targets"@, spec_joined(g0[done])));
        }
        let rendered = render(line, args);
        match rendered {
            Err(e) => {
                proof {
                    assert(g0.skip(done).drop_first() =~= g0.skip(done + 1));
                }
                while batches.len() > 0
                    invariant
                        args.as_map() == m0.insert("targets"@, spec_joined(g0[done])),
                    decreases batches@.len(),
                {
                    let _ = batches.pop();
                }
                proof {
                    assert(exists|v: Seq<char>|
                        args.as_map() == m0.insert("targets"@, v)) by {
                        assert(args.as_map() == m0.insert("targets"@, spec_joined(g0[done])));
                    }
                }
                return Err(e);
            },
            Ok(s) => {
                let ghost lpre = lines.deep_view();
                lines.push(s);
                proof {
                    assert(g0.skip(done).drop_first() =~= g0.skip(done + 1));
                    assert(lines.deep_view() =~= lpre.push(s@));
                    match spec_group_lines(g0.skip(done + 1), m0, line@) {
                        RenderedLines::Done(rest) => {
                            assert(lpre + (seq![s@] + rest) =~= lines.deep_view() + rest);
                        },
                        _ => {},
                    }
                    done = done + 1;
                }
            },
        }
    }
    proof {
        assert(done == g0.len());
        assert(g0.skip(done).len() == 0);
        assert(lines.deep_view() + Seq::<Seq<char>>::empty() =~= lines.deep_view());
        if done > 0 {
            assert(exists|v: Seq<char>| args.as_map() == m0.insert("targets"@, v)) by {
                assert(args.as_map() == m0.insert("targets"@, spec_joined(g0[done - 1])));
            }
        }
    }
    Ok(lines)
}

/// Why formatting a batch failed. Every failure is terminal: an
/// unrecognized promotion type, a category with no configured template, a
/// placeholder with no binding, or unbalanced braces in a template.
#[derive(Debug, PartialEq)]
pub enum FormatError {
    UnrecognizedPromotionType,
    MissingTemplate,
    MissingBinding(String),
    MalformedTemplate,
}

/// The outcome of formatting a whole batch.
pub enum FormatOutcome {
    Done(Seq<Seq<char>>),
    Unrecognized,
    MissingTemplate,
    MissingBinding(Seq<char>),
    Malformed,
}

/// What formatting a batch against a configuration yields: the instance
/// line, the path line, then one line per target group, in chunk order; or
/// the first failure on the way there.
pub open spec fn spec_format_batch(batch: PromotionBatch, lines: FormatLines) -> FormatOutcome {
    let m = spec_mapify(batch);
    match spec_promotion_kind(batch.promotion_type@) {
        None => FormatOutcome::Unrecognized,
        Some(kind) => match spec_line_for(lines, kind) {
            None => FormatOutcome::MissingTemplate,
            Some(tmpl) => match spec_render(lines.instance@, m) {
                Rendering::Missing(n) => FormatOutcome::MissingBinding(n),
                Rendering::Malformed => FormatOutcome::Malformed,
                Rendering::Done(il) => match spec_render(lines.path@, m) {
                    Rendering::Missing(n) => FormatOutcome::MissingBinding(n),
                    Rendering::Malformed => FormatOutcome::Malformed,
                    Rendering::Done(pl) => match spec_group_lines(
                        chunks(batch.targets.effective()),
                        m,
                        tmpl,
                    ) {
                        RenderedLines::Missing(n) => FormatOutcome::MissingBinding(n),
                        RenderedLines::Malformed => FormatOutcome::Malformed,
                        RenderedLines::Done(gls) => FormatOutcome::Done(seq![il, pl] + gls),
                    },
                },
            },
        },
    }
}

/// Formats one batch against the configured line templates: one instance
/// line, one path line, then one line per group of at most three targets.
/// The batch is consumed.
pub fn format_batch(batch: PromotionBatch, lines: &FormatLines) -> (r: Result<
    Vec<String>,
    FormatError,
>)
    ensures
        match r {
            Ok(out) => spec_format_batch(batch, *lines) == FormatOutcome::Done(out.deep_view()),
            Err(FormatError::UnrecognizedPromotionType) => spec_format_batch(batch, *lines)
                == FormatOutcome::Unrecognized,
            Err(FormatError::MissingTemplate) => spec_format_batch(batch, *lines)
                == FormatOutcome::MissingTemplate,
            Err(FormatError::MissingBinding(name)) => spec_format_batch(batch, *lines)
                == FormatOutcome::MissingBinding(name@),
            Err(FormatError::MalformedTemplate) => spec_format_batch(batch, *lines)
                == FormatOutcome::Malformed,
        },
{
    let ghost b0 = batch;
    let PromotionBatch { instance, source, destination, promotion_type, targets } = batch;
    let mut tg = targets;
    let kind = match promotion_kind(promotion_type.as_str()) {
        None => {
            return Err(FormatError::UnrecognizedPromotionType);
        },
        Some(k) => k,
    };
    let tmpl = match lines.line_for(kind) {
        None => {
            return Err(FormatError::MissingTemplate);
        },
        Some(t) => t,
    };
    let rebuilt = PromotionBatch {
        instance,
        source,
        destination,
        promotion_type,
        targets: Targets::new(),
    };
    proof {
        assert(spec_mapify(rebuilt) == spec_mapify(b0));
    }
    let mut args = mapify(rebuilt);
    let instance_line = match render(lines.instance.as_str(), &args) {
        Err(RenderError::MissingBinding(n)) => {
            return Err(FormatError::MissingBinding(n));
        },
        Err(RenderError::MalformedTemplate) => {
            return Err(FormatError::MalformedTemplate);
        },
        Ok(s) => s,
    };
    let path_line = match render(lines.path.as_str(), &args) {
        Err(RenderError::MissingBinding(n)) => {
            return Err(FormatError::MissingBinding(n));
        },
        Err(RenderError::MalformedTemplate) => {
            return Err(FormatError::MalformedTemplate);
        },
        Ok(s) => s,
    };
    let mut groups = tg.prepare();
    let mut group_lines = match target_lines(&mut args, &mut groups, tmpl.as_str()) {
        Err(RenderError::MissingBinding(n)) => {
            return Err(FormatError::MissingBinding(n));
        },
        Err(RenderError::MalformedTemplate) => {
            return Err(FormatError::MalformedTemplate);
        },
        Ok(ls) => ls,
    };
    let ghost gls = group_lines.deep_view();
    let mut out: Vec<String> = Vec::new();
    out.push(instance_line);
    out.push(path_line);
    out.append(&mut group_lines);
    proof {
        assert(out.deep_view() =~= seq![instance_line@, path_line@] + gls);
    }
    Ok(out)
}

} // verus!
