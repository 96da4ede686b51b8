//! The data model of a promotion batch: the target list with its chunking
//! into groups of at most three, the batch descriptor, the configured line
//! templates, promotion-type dispatch and target validation.

use vstd::prelude::*;

use crate::text::eq_ignore_case;
use crate::text::has_colon;
use crate::text::lower_seq;
use crate::text::str_has_colon;
use crate::text::trim_spec;
use crate::text::trimmed;

verus! {

/// An ordered list of target identifiers, built from one comma separated
/// string of raw user input; every stored element is trimmed.
#[derive(Debug, Clone, PartialEq)]
pub struct Targets {
    targets: Vec<String>,
}

/// One step of splitting on commas: `cur` is the piece collected so far.
/// Splitting always yields at least one piece, so an empty input gives one
/// empty piece.
pub open spec fn split_from(s: Seq<char>, cur: Seq<char>) -> Seq<Seq<char>>
    decreases s.len(),
{
    if s.len() == 0 {
        seq![cur]
    } else if s[0] == ',' {
        seq![cur] + split_from(s.drop_first(), Seq::empty())
    } else {
        split_from(s.drop_first(), cur.push(s[0]))
    }
}

/// What parsing a raw comma separated input produces: the input split on
/// commas, each piece trimmed.
pub open spec fn parse_targets(s: Seq<char>) -> Seq<Seq<char>> {
    split_from(s, Seq::empty()).map_values(|p: Seq<char>| trim_spec(p))
}

impl Targets {
    /// The stored contents: one character sequence per element.
    pub closed spec fn model(&self) -> Seq<Seq<char>> {
        self.targets.deep_view()
    }

    /// The contents with the "no targets" convention applied: a list whose
    /// single element is empty stands for an empty list; longer lists are
    /// taken as they are.
    pub open spec fn effective(&self) -> Seq<Seq<char>> {
        if self.model().len() <= 1 && (self.model().len() == 0 || self.model()[0].len() == 0) {
            Seq::empty()
        } else {
            self.model()
        }
    }

    pub fn new() -> (t: Targets)
        ensures
            t.model() == Seq::<Seq<char>>::empty(),
    {
        let t = Targets { targets: Vec::new() };
        proof {
            assert(t.model() =~= Seq::<Seq<char>>::empty());
        }
        t
    }

    /// Appends one raw element; it is trimmed before it is stored.
    pub fn push(&mut self, s: String)
        ensures
            final(self).model() == old(self).model().push(trim_spec(s@)),
    {
        let piece = trimmed(s.as_str());
        self.targets.push(piece.to_owned());
        proof {
            assert(self.model() =~= old(self).model().push(trim_spec(s@)));
        }
    }

    /// Parses one comma separated input into a target list.
    pub fn try_from(s: &str) -> (t: Targets)
        ensures
            t.model() == parse_targets(s@),
    {
        let n = s.unicode_len();
        let mut t = Targets::new();
        let mut ps: usize = 0;
        let mut i: usize = 0;
        proof {
            assert(s@.skip(0) =~= s@);
            assert(s@.subrange(0, 0) =~= Seq::<char>::empty());
            assert(t.model() + parse_targets(s@) =~= parse_targets(s@));
        }
        while i < n
            invariant
                n == s@.len(),
                0 <= ps <= i <= n,
                t.model() + map_trim(split_from(s@.skip(i as int), s@.subrange(ps as int, i as int)))
                    == parse_targets(s@),
            decreases n - i,
        {
            let ghost cur = s@.subrange(ps as int, i as int);
            proof {
                let sk = s@.skip(i as int);
                assert(sk[0] == s@[i as int]);
                assert(sk.drop_first() =~= s@.skip(i as int + 1));
            }
            let c = s.get_char(i);
            if c == ',' {
                let ghost pre = t.model();
                let piece = s.substring_char(ps, i);
                t.push(piece.to_owned());
                ps = i + 1;
                proof {
                    lemma_map_trim_add(seq![cur], split_from(s@.skip(i as int + 1), Seq::empty()));
                    assert(map_trim(seq![cur]) =~= seq![trim_spec(cur)]);
                    assert(t.model() =~= pre + seq![trim_spec(cur)]);
                    assert((pre + seq![trim_spec(cur)]) + map_trim(
                        split_from(s@.skip(i as int + 1), Seq::empty()),
                    ) =~= pre + (seq![trim_spec(cur)] + map_trim(
                        split_from(s@.skip(i as int + 1), Seq::empty()),
                    )));
                    assert(s@.subrange(i as int + 1, i as int + 1) =~= Seq::<char>::empty());
                }
            } else {
                proof {
                    assert(cur.push(s@[i as int]) =~= s@.subrange(ps as int, i as int + 1));
                }
            }
            i = i + 1;
        }
        proof {
            assert(s@.skip(n as int).len() == 0);
        }
        let ghost cur = s@.subrange(ps as int, n as int);
        let ghost pre = t.model();
        let piece = s.substring_char(ps, n);
        t.push(piece.to_owned());
        proof {
            assert(map_trim(seq![cur]) =~= seq![trim_spec(cur)]);
            assert(t.model() =~= pre + seq![trim_spec(cur)]);
        }
        t
    }

    /// How many targets the list holds, under the convention that a single
    /// empty element means "no targets".
    pub fn len(&self) -> (r: usize)
        ensures
            r == self.effective().len(),
    {
        if self.targets.len() == 0 {
            0
        } else if self.targets.len() == 1 {
            if self.targets[0].as_str().is_empty() {
                0
            } else {
                1
            }
        } else {
            self.targets.len()
        }
    }

    /// A read-only walk over the stored elements, in order.
    pub fn iter(&self) -> (it: TargetsIterator)
        ensures
            it.src() == self.model(),
            it.pos() == 0,
    {
        TargetsIterator { targets: self, index: 0 }
    }
}

/// Applies trimming to every piece of a split.
pub open spec fn map_trim(pieces: Seq<Seq<char>>) -> Seq<Seq<char>> {
    pieces.map_values(|p: Seq<char>| trim_spec(p))
}

/// Trimming each piece of a concatenation trims the two halves separately.
pub proof fn lemma_map_trim_add(a: Seq<Seq<char>>, b: Seq<Seq<char>>)
    ensures
        map_trim(a + b) == map_trim(a) + map_trim(b),
{
    assert(map_trim(a + b) =~= map_trim(a) + map_trim(b));
}

/// The list split into ordered groups: each group takes the next three
/// elements, and the last group takes whatever remains.
pub open spec fn chunks(s: Seq<Seq<char>>) -> Seq<Seq<Seq<char>>>
    decreases s.len(),
{
    if s.len() == 0 {
        Seq::empty()
    } else if s.len() <= 3 {
        seq![s]
    } else {
        seq![s.take(3)] + chunks(s.skip(3))
    }
}

/// The contents of a sequence of groups, one model per group.
pub open spec fn models_of(groups: Seq<Targets>) -> Seq<Seq<Seq<char>>> {
    Seq::new(groups.len(), |i: int| groups[i].model())
}

/// Chunking a list of N targets yields exactly the ceiling of N divided by
/// three groups; in particular an empty list yields no group at all.
pub proof fn lemma_chunks_count(s: Seq<Seq<char>>)
    ensures
        chunks(s).len() == (s.len() + 2) / 3,
    decreases s.len(),
{
    if s.len() > 3 {
        lemma_chunks_count(s.skip(3));
    }
}

/// Every group holds exactly three targets, except the last group, which
/// holds N modulo three of them (or three when N is a nonzero multiple of
/// three).
pub proof fn lemma_chunks_sizes(s: Seq<Seq<char>>)
    ensures
        forall|k: int|
            0 <= k < chunks(s).len() - 1 ==> (#[trigger] chunks(s)[k]).len() == 3,
        chunks(s).len() > 0 ==> chunks(s).last().len() == (if s.len() % 3 == 0 {
            3nat
        } else {
            s.len() % 3
        }),
    decreases s.len(),
{
    if s.len() > 3 {
        lemma_chunks_sizes(s.skip(3));
        assert(chunks(s).last() == chunks(s.skip(3)).last());
        assert forall|k: int| 0 <= k < chunks(s).len() - 1 implies (#[trigger] chunks(s)[k]).len()
            == 3 by {
            if k > 0 {
                assert(chunks(s)[k] == chunks(s.skip(3))[k - 1]);
            }
        }
    }
}

/// Concatenating the groups in order reproduces the original list.
pub proof fn lemma_chunks_concat(s: Seq<Seq<char>>)
    ensures
        chunks(s).flatten() == s,
    decreases s.len(),
{
    if s.len() == 0 {
        assert(chunks(s).flatten() =~= s);
    } else if s.len() <= 3 {
        chunks(s).lemma_flatten_one_element();
    } else {
        lemma_chunks_concat(s.skip(3));
        assert(chunks(s).first() == s.take(3));
        assert(chunks(s).drop_first() =~= chunks(s.skip(3)));
        assert(chunks(s).flatten() == s.take(3) + chunks(s.skip(3)).flatten());
        assert(s.take(3) + s.skip(3) =~= s);
    }
}

impl Targets {
    /// Splits the target list into its ordered groups of at most three,
    /// consuming the list: afterwards it is empty. A list whose single
    /// element is empty counts as holding no targets and yields no group.
    #[verifier::loop_isolation(false)]
    pub fn prepare(&mut self) -> (groups: Vec<Targets>)
        ensures
            models_of(groups@) == chunks(old(self).effective()),
            final(self).model() == Seq::<Seq<char>>::empty(),
    {
        let ghost eff = self.effective();
        let n = self.len();
        let mut groups: Vec<Targets> = Vec::new();
        let mut pos: usize = 0;
        proof {
            assert(eff.skip(0) =~= eff);
            assert(models_of(groups@) + chunks(eff) =~= chunks(eff));
            if n > 0 {
                assert(eff == self.model());
                assert(self.model().len() == self.targets@.len());
            }
        }
        while pos < n
            invariant
                0 <= pos <= n,
                models_of(groups@) + chunks(eff.skip(pos as int)) == chunks(eff),
            decreases n - pos,
        {
            let hi = if n - pos >= 3 {
                pos + 3
            } else {
                n
            };
            let mut tmp: Vec<String> = Vec::new();
            let mut j = pos;
            proof {
                assert(tmp.deep_view() =~= eff.subrange(pos as int, pos as int));
            }
            while j < hi
                invariant
                    pos <= j <= hi,
                    tmp.deep_view() == eff.subrange(pos as int, j as int),
                decreases hi - j,
            {
                let elem = self.targets[j].clone();
                tmp.push(elem);
                proof {
                    assert(tmp.deep_view() =~= eff.subrange(pos as int, j as int + 1));
                }
                j = j + 1;
            }
            let group = Targets { targets: tmp };
            proof {
                let rest = eff.skip(pos as int);
                assert(rest.len() == n - pos);
                if n - pos >= 3 {
                    assert(rest.take(3) =~= eff.subrange(pos as int, pos as int + 3));
                    assert(rest.skip(3) =~= eff.skip(pos as int + 3));
                    assert(chunks(rest) == seq![group.model()] + chunks(eff.skip(hi as int)));
                } else {
                    assert(rest =~= eff.subrange(pos as int, n as int));
                    assert(chunks(rest) == seq![group.model()]);
                    assert(eff.skip(n as int).len() == 0);
                    assert(chunks(eff.skip(hi as int)) =~= Seq::<Seq<Seq<char>>>::empty());
                }
                assert(models_of(groups@.push(group)) =~= models_of(groups@) + seq![
                    group.model(),
                ]);
                assert((models_of(groups@) + seq![group.model()]) + chunks(eff.skip(hi as int))
                    =~= models_of(groups@) + (seq![group.model()] + chunks(eff.skip(hi as int))));
            }
            groups.push(group);
            pos = hi;
        }
        proof {
            assert(eff.skip(n as int).len() == 0);
            assert(chunks(eff.skip(pos as int)) =~= Seq::<Seq<Seq<char>>>::empty());
            assert(models_of(groups@) =~= models_of(groups@) + chunks(eff.skip(pos as int)));
        }
        self.targets.clear();
        proof {
            assert(self.model() =~= Seq::<Seq<char>>::empty());
        }
        groups
    }

    /// The display join of the elements: pieces are separated by commas,
    /// except that nothing is written before the join of an empty prefix.
    pub fn joined(&self) -> (r: String)
        ensures
            r@ == spec_joined(self.model()),
    {
        let mut out = String::new();
        let m = self.targets.len();
        let mut i: usize = 0;
        proof {
            assert(self.model().take(0) =~= Seq::<Seq<char>>::empty());
        }
        while i < m
            invariant
                0 <= i <= m,
                m == self.targets@.len(),
                m == self.model().len(),
                out@ == spec_joined(self.model().take(i as int)),
            decreases m - i,
        {
            if !out.as_str().is_empty() {
                out.append(",");
                proof {
                    reveal_strlit(",");
                    assert(","@ =~= seq![',']);
                }
            }
            out.append(self.targets[i].as_str());
            proof {
                let taken = self.model().take(i as int + 1);
                assert(taken.drop_last() =~= self.model().take(i as int));
                assert(taken.last() == self.model()[i as int]);
            }
            i = i + 1;
        }
        proof {
            assert(self.model().take(m as int) =~= self.model());
        }
        out
    }
}

/// One step of the display join: a comma is inserted only when something has
/// already been written.
pub open spec fn join_step(acc: Seq<char>, s: Seq<char>) -> Seq<char> {
    if acc.len() == 0 {
        acc + s
    } else {
        acc + seq![','] + s
    }
}

/// The display join of a whole list of elements.
pub open spec fn spec_joined(ts: Seq<Seq<char>>) -> Seq<char>
    decreases ts.len(),
{
    if ts.len() == 0 {
        Seq::empty()
    } else {
        join_step(spec_joined(ts.drop_last()), ts.last())
    }
}

/// A cursor over a `Targets` value; it keeps the index of the next element
/// so that the list itself needs no iteration state.
pub struct TargetsIterator<'a> {
    targets: &'a Targets,
    index: usize,
}

impl<'a> TargetsIterator<'a> {
    /// The list being walked.
    pub closed spec fn src(&self) -> Seq<Seq<char>> {
        self.targets.model()
    }

    /// The position of the next element to hand out.
    pub closed spec fn pos(&self) -> int {
        self.index as int
    }

    /// Hands out the next element, or `None` once the list is exhausted.
    pub fn next(&mut self) -> (r: Option<&'a String>)
        ensures
            final(self).src() == old(self).src(),
            old(self).pos() < old(self).src().len() ==> {
                &&& final(self).pos() == old(self).pos() + 1
                &&& r matches Some(x) && x@ == old(self).src()[old(self).pos()]
            },
            old(self).pos() >= old(self).src().len() ==> {
                &&& final(self).pos() == old(self).pos()
                &&& r is None
            },
    {
        if self.index < self.targets.targets.len() {
            let result = Some(&self.targets.targets[self.index]);
            self.index = self.index + 1;
            result
        } else {
            None
        }
    }
}

/// One promotion request: the instance holding the environments, the source
/// and destination environment names, the promotion type and the targets.
#[derive(Debug, Clone)]
pub struct PromotionBatch {
    /// Name of the instance containing the environments.
    pub instance: String,
    /// Name of the source environment to promote from.
    pub source: String,
    /// Name of the destination environment to promote to.
    pub destination: String,
    /// The kind of object being promoted, as the user wrote it.
    pub promotion_type: String,
    /// The comma separated list of objects to promote.
    pub targets: Targets,
}

/// The one-line description of a batch.
pub open spec fn spec_describe(b: PromotionBatch) -> Seq<char> {
    "(Instance: "@ + b.instance@ + ", Path: "@ + b.source@ + "->"@ + b.destination@
        + ", Promotion Type: "@ + b.promotion_type@ + ", "@ + spec_joined(b.targets.model()) + ")"@
}

impl PromotionBatch {
    /// Writes the batch out as one line, for reporting.
    pub fn describe(&self) -> (r: String)
        ensures
            r@ == spec_describe(*self),
    {
        let mut out = String::new();
        out.append("(Instance: ");
        out.append(self.instance.as_str());
        out.append(", Path: ");
        out.append(self.source.as_str());
        out.append("->");
        out.append(self.destination.as_str());
        out.append(", Promotion Type: ");
        out.append(self.promotion_type.as_str());
        out.append(", ");
        let j = self.targets.joined();
        out.append(j.as_str());
        out.append(")");
        out
    }
}

/// The configured line templates: one for the instance line, one for the
/// path line, and one line template per promotion category.
#[derive(Debug, Clone)]
pub struct FormatLines {
    pub instance: String,
    pub path: String,
    pub promote_images: String,
    pub promote_config_maps: String,
    pub promote_secrets: String,
}

/// The recognized promotion categories.
#[derive(Debug, Clone, Copy, PartialEq, Eq, Structural)]
pub enum PromotionKind {
    Images,
    Secrets,
    ConfigMaps,
    Templates,
}

/// True when `s` is `alias` up to ASCII case.
pub open spec fn matches_alias(s: Seq<char>, alias: Seq<char>) -> bool {
    lower_seq(s) == lower_seq(alias)
}

/// Which category a promotion-type name selects: matching is insensitive to
/// ASCII case and accepts the singular, plural, hyphened and underscored
/// spellings; any other name is unrecognized.
pub open spec fn spec_promotion_kind(s: Seq<char>) -> Option<PromotionKind> {
    if matches_alias(s, "image"@) || matches_alias(s, "images"@) {
        Some(PromotionKind::Images)
    } else if matches_alias(s, "secret"@) || matches_alias(s, "secrets"@) {
        Some(PromotionKind::Secrets)
    } else if matches_alias(s, "config-map"@) || matches_alias(s, "config-maps"@)
        || matches_alias(s, "config_map"@) || matches_alias(s, "config_maps"@) {
        Some(PromotionKind::ConfigMaps)
    } else if matches_alias(s, "template"@) || matches_alias(s, "templates"@) {
        Some(PromotionKind::Templates)
    } else {
        None
    }
}

/// Resolves a promotion-type name to its category, or `None` when the name
/// is not recognized.
pub fn promotion_kind(s: &str) -> (r: Option<PromotionKind>)
    ensures
        r == spec_promotion_kind(s@),
{
    if eq_ignore_case(s, "image") || eq_ignore_case(s, "images") {
        Some(PromotionKind::Images)
    } else if eq_ignore_case(s, "secret") || eq_ignore_case(s, "secrets") {
        Some(PromotionKind::Secrets)
    } else if eq_ignore_case(s, "config-map") || eq_ignore_case(s, "config-maps")
        || eq_ignore_case(s, "config_map") || eq_ignore_case(s, "config_maps") {
        Some(PromotionKind::ConfigMaps)
    } else if eq_ignore_case(s, "template") || eq_ignore_case(s, "templates") {
        Some(PromotionKind::Templates)
    } else {
        None
    }
}

/// Dispatch is insensitive to ASCII case: two promotion-type names that fold
/// to the same characters select the same category.
pub proof fn lemma_dispatch_case_insensitive(a: Seq<char>, b: Seq<char>)
    requires
        lower_seq(a) == lower_seq(b),
    ensures
        spec_promotion_kind(a) == spec_promotion_kind(b),
{
}

/// The per-category line template of a configuration. The deprecated
/// templates category has no configured line.
pub open spec fn spec_line_for(lines: FormatLines, kind: PromotionKind) -> Option<Seq<char>> {
    match kind {
        PromotionKind::Images => Some(lines.promote_images@),
        PromotionKind::Secrets => Some(lines.promote_secrets@),
        PromotionKind::ConfigMaps => Some(lines.promote_config_maps@),
        PromotionKind::Templates => None,
    }
}

impl FormatLines {
    /// Selects the per-category line template, or `None` where the
    /// configuration has no line for the category.
    pub fn line_for(&self, kind: PromotionKind) -> (r: Option<&String>)
        ensures
            match r {
                Some(l) => spec_line_for(*self, kind) == Some(l@),
                None => spec_line_for(*self, kind) is None,
            },
    {
        match kind {
            PromotionKind::Images => Some(&self.promote_images),
            PromotionKind::Secrets => Some(&self.promote_secrets),
            PromotionKind::ConfigMaps => Some(&self.promote_config_maps),
            PromotionKind::Templates => None,
        }
    }
}

/// The targets whose colon-presence disagrees with what the promotion type
/// expects, in their original order.
pub open spec fn spec_flagged(ts: Seq<Seq<char>>, want_colon: bool) -> Seq<Seq<char>>
    decreases ts.len(),
{
    if ts.len() == 0 {
        Seq::empty()
    } else {
        let rest = spec_flagged(ts.drop_last(), want_colon);
        if has_colon(ts.last()) != want_colon {
            rest.push(ts.last())
        } else {
            rest
        }
    }
}

/// What validation flags: image references must carry a colon (a version
/// separator), config maps and templates must not, and secrets get no
/// structural check.
pub open spec fn spec_validate(kind: PromotionKind, ts: Seq<Seq<char>>) -> Seq<Seq<char>> {
    match kind {
        PromotionKind::Images => spec_flagged(ts, true),
        PromotionKind::ConfigMaps => spec_flagged(ts, false),
        PromotionKind::Templates => spec_flagged(ts, false),
        PromotionKind::Secrets => Seq::empty(),
    }
}

/// Checks the targets against the structural rule of the promotion type and
/// returns the offending ones, in order; an empty result means all valid.
/// The inputs are left untouched.
#[verifier::loop_isolation(false)]
pub fn validate_targets(kind: PromotionKind, targets: &Targets) -> (bad: Vec<String>)
    ensures
        bad.deep_view() == spec_validate(kind, targets.effective()),
{
    let want_colon: bool = match kind {
        PromotionKind::Images => true,
        PromotionKind::ConfigMaps => false,
        PromotionKind::Templates => false,
        PromotionKind::Secrets => {
            let empty: Vec<String> = Vec::new();
            proof {
                assert(empty.deep_view() =~= Seq::<Seq<char>>::empty());
            }
            return empty;
        },
    };
    let ghost eff = targets.effective();
    let n = targets.len();
    let mut bad: Vec<String> = Vec::new();
    proof {
        assert(bad.deep_view() =~= spec_flagged(eff.take(0), want_colon));
        if n > 0 {
            assert(eff == targets.model());
        }
    }
    let mut i: usize = 0;
    while i < n
        invariant
            0 <= i <= n,
            bad.deep_view() == spec_flagged(eff.take(i as int), want_colon),
        decreases n - i,
    {
        let ghost pre = bad.deep_view();
        let flagged = str_has_colon(targets.targets[i].as_str()) != want_colon;
        if flagged {
            bad.push(targets.targets[i].clone());
            proof {
                assert(bad.deep_view() =~= pre.push(eff[i as int]));
            }
        }
        proof {
            let taken = eff.take(i as int + 1);
            assert(taken.drop_last() =~= eff.take(i as int));
            assert(taken.last() == eff[i as int]);
        }
        i = i + 1;
    }
    proof {
        assert(eff.take(n as int) =~= eff);
    }
    bad
}

} // verus!
