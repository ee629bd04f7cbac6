use vstd::prelude::*;
use vstd::string::StringExecFns;

verus! {

/// One atomic strum action: down, up, a muted hit, or a miss (rest).
#[derive(Clone, Copy, Debug, PartialEq, Eq, Structural)]
pub enum Stroke {
    Up,
    Down,
    Mute,
    Miss,
}

impl Stroke {
    /// The fixed single-character display form of this stroke.
    pub open spec fn shorthand_char(self) -> char {
        match self {
            Stroke::Down => 'D',
            Stroke::Up => 'U',
            Stroke::Mute => 'x',
            Stroke::Miss => '-',
        }
    }

    /// The single-character display form as a string slice.
    pub fn shorthand(&self) -> (r: &'static str)
        ensures
            r@ =~= seq![self.shorthand_char()],
    {
        proof {
            reveal_strlit("D");
            reveal_strlit("U");
            reveal_strlit("x");
            reveal_strlit("-");
        }
        match self {
            Stroke::Down => "D",
            Stroke::Up => "U",
            Stroke::Mute => "x",
            Stroke::Miss => "-",
        }
    }
}

/// An ordered, fixed-length sequence of strokes. The length is chosen at
/// creation and never changes afterwards: slots are only overwritten in
/// place, never inserted or removed.
#[derive(Debug)]
pub struct StrummingPattern {
    pub strokes: Vec<Stroke>,
}

impl View for StrummingPattern {
    type V = Seq<Stroke>;

    open spec fn view(&self) -> Seq<Stroke> {
        self.strokes@
    }
}

/// The space-joined sequence of single-character stroke forms, in slot order.
pub open spec fn render_spec(s: Seq<Stroke>) -> Seq<char>
    decreases s.len(),
{
    if s.len() == 0 {
        Seq::empty()
    } else if s.len() == 1 {
        seq![s[0].shorthand_char()]
    } else {
        seq![s[0].shorthand_char(), ' '] + render_spec(s.skip(1))
    }
}

/// Appending one stroke extends the rendering by a separating space and the
/// stroke's character (or by the bare character when the sequence was empty).
proof fn lemma_render_push(s: Seq<Stroke>, t: Stroke)
    ensures
        render_spec(s.push(t)) == if s.len() == 0 {
            seq![t.shorthand_char()]
        } else {
            render_spec(s) + seq![' ', t.shorthand_char()]
        },
    decreases s.len(),
{
    if s.len() == 0 {
        assert(s.push(t).len() == 1);
        assert(s.push(t)[0] == t);
    } else {
        assert(s.push(t).skip(1) =~= s.skip(1).push(t));
        lemma_render_push(s.skip(1), t);
        assert(render_spec(s.push(t)) =~= render_spec(s) + seq![' ', t.shorthand_char()]);
    }
}

/// Relies on rand::rng and rand::Rng::random_range: a sampled index strictly
/// below the given positive bound.
#[verifier::external_body]
fn random_below(bound: usize) -> (r: usize)
    requires
        bound > 0,
    ensures
        r < bound,
{
    rand::Rng::random_range(&mut rand::rng(), 0..bound)
}

impl StrummingPattern {
    /// A freshly generated pattern of the requested length, each slot drawn
    /// independently from the four stroke variants.
    pub fn new_random(len: usize) -> (r: StrummingPattern)
        ensures
            r@.len() == len,
    {
        let mut strokes: Vec<Stroke> = Vec::new();
        let mut k: usize = 0;
        while k < len
            invariant
                k <= len,
                strokes@.len() == k,
            decreases len - k,
        {
            let i = random_below(4);
            let s = if i == 0 {
                Stroke::Down
            } else if i == 1 {
                Stroke::Up
            } else if i == 2 {
                Stroke::Mute
            } else {
                Stroke::Miss
            };
            strokes.push(s);
            k += 1;
        }
        StrummingPattern { strokes }
    }

    /// The number of slots.
    pub fn len(&self) -> (r: usize)
        ensures
            r == self@.len(),
    {
        self.strokes.len()
    }

    /// Overwrite one slot; every other slot keeps its stroke.
    pub fn set_stroke(&mut self, index: usize, stroke: Stroke)
        requires
            index < old(self)@.len(),
        ensures
            final(self)@ == old(self)@.update(index as int, stroke),
    {
        self.strokes.set(index, stroke);
    }

    /// The display form of the whole pattern: the single-character forms of
    /// the slots in order, joined by single spaces.
    pub fn render_shorthand(&self) -> (r: String)
        ensures
            r@ == render_spec(self@),
    {
        let mut out = String::new();
        let n = self.strokes.len();
        let mut i: usize = 0;
        while i < n
            invariant
                i <= n,
                n == self@.len(),
                out@ == render_spec(self@.take(i as int)),
            decreases n - i,
        {
            if i > 0 {
                proof {
                    reveal_strlit(" ");
                }
                out.append(" ");
            }
            let s = self.strokes[i];
            out.append(s.shorthand());
            proof {
                assert(self@.take(i + 1) =~= self@.take(i as int).push(self@[i as int]));
                lemma_render_push(self@.take(i as int), self@[i as int]);
            }
            i += 1;
        }
        proof {
            assert(self@.take(n as int) =~= self@);
        }
        out
    }
}

} // verus!
