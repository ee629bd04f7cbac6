use vstd::prelude::*;
use crate::pattern::{Stroke, StrummingPattern};

verus! {

/// A fault in a persisted document: it is not a well-formed pattern file.
#[derive(Clone, Copy, Debug, PartialEq, Eq, Structural)]
pub enum ParseError {
    Malformed,
}

/// The opening of the document, up to and including the bracket that opens
/// the stroke list.
pub open spec fn header() -> Seq<u8> {
    seq![('{' as u8), ('"' as u8), ('s' as u8), ('t' as u8), ('r' as u8), ('o' as u8), ('k' as u8), ('e' as u8), ('s' as u8), ('"' as u8), (':' as u8), ('[' as u8)]
}

/// The closing of the document.
pub open spec fn footer() -> Seq<u8> {
    seq![(']' as u8), ('}' as u8)]
}

/// The quoted tag of one stroke.
pub open spec fn tag(t: Stroke) -> Seq<u8> {
    match t {
        Stroke::Down => seq![('"' as u8), ('D' as u8), ('o' as u8), ('w' as u8), ('n' as u8), ('"' as u8)],
        Stroke::Up => seq![('"' as u8), ('U' as u8), ('p' as u8), ('"' as u8)],
        Stroke::Mute => seq![('"' as u8), ('M' as u8), ('u' as u8), ('t' as u8), ('e' as u8), ('"' as u8)],
        Stroke::Miss => seq![('"' as u8), ('M' as u8), ('i' as u8), ('s' as u8), ('s' as u8), ('"' as u8)],
    }
}

/// The comma-joined tags of the strokes, in slot order.
pub open spec fn encode_items(s: Seq<Stroke>) -> Seq<u8>
    decreases s.len(),
{
    if s.len() == 0 {
        Seq::empty()
    } else if s.len() == 1 {
        tag(s[0])
    } else {
        tag(s[0]) + seq![(',' as u8)] + encode_items(s.skip(1))
    }
}

/// The full persisted document of a stroke sequence.
pub open spec fn encode_spec(s: Seq<Stroke>) -> Seq<u8> {
    header() + encode_items(s) + footer()
}

pub open spec fn starts_with(m: Seq<u8>, p: Seq<u8>) -> bool {
    m.len() >= p.len() && m.take(p.len() as int) == p
}

/// The bytes between the brackets, parsed: the comma-joined tags of exactly
/// these strokes, or nothing.
pub open spec fn parse_items(m: Seq<u8>) -> Option<Seq<Stroke>>
    decreases m.len(), 1int,
{
    if m.len() == 0 {
        Some(Seq::empty())
    } else if starts_with(m, tag(Stroke::Down)) {
        parse_rest(m, Stroke::Down)
    } else if starts_with(m, tag(Stroke::Up)) {
        parse_rest(m, Stroke::Up)
    } else if starts_with(m, tag(Stroke::Mute)) {
        parse_rest(m, Stroke::Mute)
    } else if starts_with(m, tag(Stroke::Miss)) {
        parse_rest(m, Stroke::Miss)
    } else {
        None
    }
}

/// What follows one parsed stroke tag: the end of the list, or a comma and
/// at least one further tag.
pub open spec fn parse_rest(m: Seq<u8>, t: Stroke) -> Option<Seq<Stroke>>
    decreases m.len(), 0int,
{
    if m.len() < tag(t).len() {
        None
    } else {
        let rest = m.skip(tag(t).len() as int);
        if rest.len() == 0 {
            Some(seq![t])
        } else if rest[0] == (',' as u8) && rest.len() >= 2 {
            match parse_items(rest.skip(1)) {
                Some(ss) => Some(seq![t] + ss),
                None => None,
            }
        } else {
            None
        }
    }
}

/// A whole document parsed: the stroke sequence it holds, or nothing when
/// the document is not well formed.
pub open spec fn parse_spec(s: Seq<u8>) -> Option<Seq<Stroke>> {
    if s.len() >= 14 && s.take(12) == header() && s.skip(s.len() - 2) == footer() {
        parse_items(s.subrange(12, s.len() - 2))
    } else {
        None
    }
}

/// Two stroke tags that both begin the same byte sequence are the same tag:
/// the four tags differ pairwise in their third byte.
proof fn lemma_tag_determinism(m: Seq<u8>, a: Stroke, b: Stroke)
    requires
        starts_with(m, tag(a)),
        starts_with(m, tag(b)),
    ensures
        a == b,
{
    if a != b {
        assert(m[2] == tag(a)[2]);
        assert(m[2] == tag(b)[2]);
        assert(tag(a)[2] != tag(b)[2]);
    }
}

proof fn lemma_encode_items_len(s: Seq<Stroke>)
    ensures
        s.len() >= 1 ==> encode_items(s).len() >= 4,
    decreases s.len(),
{
    if s.len() > 1 {
        lemma_encode_items_len(s.skip(1));
    }
}

proof fn lemma_parse_encode_items(q: Seq<Stroke>)
    ensures
        parse_items(encode_items(q)) == Some(q),
    decreases q.len(),
{
    let e = encode_items(q);
    if q.len() == 0 {
        assert(parse_items(e) == Some(q));
    } else {
        let t = q[0];
        if q.len() == 1 {
            assert(e == tag(t));
            assert(e.take(tag(t).len() as int) =~= tag(t));
            assert(starts_with(e, tag(t)));
            assert forall|u: Stroke| starts_with(e, tag(u)) implies u == t by {
                lemma_tag_determinism(e, u, t);
            }
            assert(e.skip(tag(t).len() as int).len() == 0);
            assert(parse_rest(e, t) == Some(seq![t]));
            assert(seq![t] =~= q);
        } else {
            let q1 = q.skip(1);
            let e1 = encode_items(q1);
            lemma_encode_items_len(q1);
            assert(e == tag(t) + seq![(',' as u8)] + e1);
            assert(e.take(tag(t).len() as int) =~= tag(t));
            assert(starts_with(e, tag(t)));
            assert forall|u: Stroke| starts_with(e, tag(u)) implies u == t by {
                lemma_tag_determinism(e, u, t);
            }
            let rest = e.skip(tag(t).len() as int);
            assert(rest =~= seq![(',' as u8)] + e1);
            assert(rest[0] == (',' as u8));
            assert(rest.len() >= 2);
            assert(rest.skip(1) =~= e1);
            lemma_parse_encode_items(q1);
            assert(parse_rest(e, t) == Some(seq![t] + q1));
            assert(seq![t] + q1 =~= q);
        }
    }
}

/// Round trip: the persisted document of any stroke sequence parses back
/// to exactly that sequence, the empty one included.
pub proof fn lemma_round_trip(q: Seq<Stroke>)
    ensures
        parse_spec(encode_spec(q)) == Some(q),
{
    let s = encode_spec(q);
    assert(s.take(12) =~= header());
    assert(s.skip(s.len() - 2) =~= footer());
    assert(s.subrange(12, s.len() - 2) =~= encode_items(q));
    lemma_parse_encode_items(q);
}

/// Appending one stroke extends the joined tags by a separating comma and
/// the stroke's tag (or by the bare tag when the sequence was empty).
proof fn lemma_encode_push(s: Seq<Stroke>, t: Stroke)
    ensures
        encode_items(s.push(t)) == if s.len() == 0 {
            tag(t)
        } else {
            encode_items(s) + seq![(',' as u8)] + tag(t)
        },
    decreases s.len(),
{
    if s.len() == 0 {
        assert(s.push(t).len() == 1);
        assert(s.push(t)[0] == t);
    } else {
        assert(s.push(t).skip(1) =~= s.skip(1).push(t));
        lemma_encode_push(s.skip(1), t);
        assert(encode_items(s.push(t)) =~= encode_items(s) + seq![(',' as u8)] + tag(t));
    }
}

fn header_vec() -> (r: Vec<u8>)
    ensures
        r@ == header(),
{
    let mut v: Vec<u8> = Vec::new();
    v.push(('{' as u8));
    v.push(('"' as u8));
    v.push(('s' as u8));
    v.push(('t' as u8));
    v.push(('r' as u8));
    v.push(('o' as u8));
    v.push(('k' as u8));
    v.push(('e' as u8));
    v.push(('s' as u8));
    v.push(('"' as u8));
    v.push((':' as u8));
    v.push(('[' as u8));
    proof {
        assert(v@ =~= header());
    }
    v
}

fn tag_vec(t: Stroke) -> (r: Vec<u8>)
    ensures
        r@ == tag(t),
{
    let mut v: Vec<u8> = Vec::new();
    v.push(('"' as u8));
    match t {
        Stroke::Down => {
            v.push(('D' as u8));
            v.push(('o' as u8));
            v.push(('w' as u8));
            v.push(('n' as u8));
        },
        Stroke::Up => {
            v.push(('U' as u8));
            v.push(('p' as u8));
        },
        Stroke::Mute => {
            v.push(('M' as u8));
            v.push(('u' as u8));
            v.push(('t' as u8));
            v.push(('e' as u8));
        },
        Stroke::Miss => {
            v.push(('M' as u8));
            v.push(('i' as u8));
            v.push(('s' as u8));
            v.push(('s' as u8));
        },
    }
    v.push(('"' as u8));
    proof {
        assert(v@ =~= tag(t));
    }
    v
}

/// Whether the bytes of `s` from `i` up to `end` begin with `p`.
fn match_at(s: &[u8], i: usize, end: usize, p: &Vec<u8>) -> (r: bool)
    requires
        i <= end <= s@.len(),
    ensures
        r == starts_with(s@.subrange(i as int, end as int), p@),
{
    let ghost sub = s@.subrange(i as int, end as int);
    let m = p.len();
    if end - i < m {
        return false;
    }
    let mut j: usize = 0;
    while j < m
        invariant
            j <= m,
            m == p@.len(),
            i <= end <= s@.len(),
            end - i >= m,
            sub == s@.subrange(i as int, end as int),
            forall|k: int| 0 <= k < j ==> sub[k] == p@[k],
        decreases m - j,
    {
        if s[i + j] != p[j] {
            proof {
                assert(sub[j as int] == s@[i + j]);
                assert(sub.take(m as int)[j as int] != p@[j as int]);
            }
            return false;
        }
        j += 1;
    }
    proof {
        assert(sub.take(m as int) =~= p@);
    }
    true
}

impl StrummingPattern {
    /// The persisted document of this pattern, as bytes.
    pub fn save_bytes(&self) -> (r: Vec<u8>)
        ensures
            r@ == encode_spec(self@),
    {
        let mut v = header_vec();
        let n = self.strokes.len();
        let mut i: usize = 0;
        while i < n
            invariant
                i <= n,
                n == self@.len(),
                v@ == header() + encode_items(self@.take(i as int)),
            decreases n - i,
        {
            if i > 0 {
                v.push((',' as u8));
            }
            let mut tv = tag_vec(self.strokes[i]);
            let mut k: usize = 0;
            let ghost mid = v@;
            while k < tv.len()
                invariant
                    k <= tv@.len(),
                    v@ == mid + tv@.take(k as int),
                decreases tv@.len() - k,
            {
                let c = tv[k];
                v.push(c);
                proof {
                    assert(mid + tv@.take(k + 1) =~= (mid + tv@.take(k as int)).push(tv@[k as int]));
                }
                k += 1;
            }
            proof {
                assert(tv@.take(tv@.len() as int) =~= tv@);
                assert(self@.take(i + 1) =~= self@.take(i as int).push(self@[i as int]));
                lemma_encode_push(self@.take(i as int), self@[i as int]);
                assert(v@ =~= header() + encode_items(self@.take(i + 1)));
            }
            i += 1;
        }
        v.push((']' as u8));
        v.push(('}' as u8));
        proof {
            assert(self@.take(n as int) =~= self@);
            assert(v@ =~= encode_spec(self@));
        }
        v
    }

    /// Parse a persisted document. Succeeds exactly on well-formed
    /// documents, returning the pattern they hold; anything else is
    /// rejected as malformed.
    pub fn load_bytes(s: &[u8]) -> (r: Result<StrummingPattern, ParseError>)
        ensures
            match r {
                Ok(p) => parse_spec(s@) == Some(p@),
                Err(_) => parse_spec(s@) is None,
            },
    {
        let n = s.len();
        if n < 14 {
            return Err(ParseError::Malformed);
        }
        let hv = header_vec();
        if !match_at(s, 0, n, &hv) {
            proof {
                assert(s@.subrange(0, n as int) =~= s@);
                assert(s@.take(12) != header());
            }
            return Err(ParseError::Malformed);
        }
        proof {
            assert(s@.subrange(0, n as int) =~= s@);
            assert(s@.take(12) =~= s@.subrange(0, n as int).take(12));
        }
        if s[n - 2] != (']' as u8) || s[n - 1] != ('}' as u8) {
            proof {
                assert(s@.skip(n - 2).len() == 2);
                assert(s@.skip(n - 2)[0] == s@[n - 2]);
                assert(s@.skip(n - 2)[1] == s@[n - 1]);
            }
            return Err(ParseError::Malformed);
        }
        proof {
            assert(s@.skip(n - 2) =~= footer());
        }
        let end = n - 2;
        let ghost m = s@.subrange(12, end as int);
        let mut strokes: Vec<Stroke> = Vec::new();
        let mut i: usize = 12;
        if i == end {
            proof {
                assert(m.len() == 0);
                assert(parse_spec(s@) == Some(Seq::<Stroke>::empty()));
            }
            return Ok(StrummingPattern { strokes });
        }
        let dv = tag_vec(Stroke::Down);
        let uv = tag_vec(Stroke::Up);
        let mv = tag_vec(Stroke::Mute);
        let sv = tag_vec(Stroke::Miss);
        while i < end
            invariant
                12 <= i < end,
                end == n - 2,
                n == s@.len(),
                n >= 14,
                m == s@.subrange(12, end as int),
                parse_spec(s@) == parse_items(m),
                dv@ == tag(Stroke::Down),
                uv@ == tag(Stroke::Up),
                mv@ == tag(Stroke::Mute),
                sv@ == tag(Stroke::Miss),
                match parse_items(s@.subrange(i as int, end as int)) {
                    Some(ss) => parse_items(m) == Some(strokes@ + ss),
                    None => parse_items(m) is None,
                },
            decreases end - i,
        {
            let ghost cur = s@.subrange(i as int, end as int);
            let t: Stroke;
            if match_at(s, i, end, &dv) {
                t = Stroke::Down;
            } else if match_at(s, i, end, &uv) {
                t = Stroke::Up;
            } else if match_at(s, i, end, &mv) {
                t = Stroke::Mute;
            } else if match_at(s, i, end, &sv) {
                t = Stroke::Miss;
            } else {
                proof {
                    assert(parse_items(cur) is None);
                }
                return Err(ParseError::Malformed);
            }
            let ghost l = tag(t).len() as int;
            proof {
                assert(starts_with(cur, tag(t)));
                assert(parse_items(cur) == parse_rest(cur, t));
            }
            strokes.push(t);
            let step = match t {
                Stroke::Down => 6,
                Stroke::Up => 4,
                Stroke::Mute => 6,
                Stroke::Miss => 6,
            };
            i += step;
            let ghost rest = cur.skip(l);
            proof {
                assert(rest =~= s@.subrange(i as int, end as int));
            }
            if i == end {
                proof {
                    assert(rest.len() == 0);
                    assert(parse_rest(cur, t) == Some(seq![t]));
                    assert(strokes@ =~= strokes@.drop_last() + seq![t]);
                }
                return Ok(StrummingPattern { strokes });
            }
            proof {
                assert(rest.len() > 0);
                assert(rest[0] == s@[i as int]);
            }
            if s[i] != (',' as u8) {
                proof {
                    assert(parse_rest(cur, t) is None);
                }
                return Err(ParseError::Malformed);
            }
            i += 1;
            if i == end {
                proof {
                    assert(rest.len() == 1);
                    assert(parse_rest(cur, t) is None);
                }
                return Err(ParseError::Malformed);
            }
            proof {
                assert(rest.skip(1) =~= s@.subrange(i as int, end as int));
                assert(parse_rest(cur, t) == match parse_items(rest.skip(1)) {
                    Some(ss) => Some(seq![t] + ss),
                    None => None::<Seq<Stroke>>,
                });
                assert(strokes@ =~= strokes@.drop_last() + seq![t]);
            }
        }
        proof {
            assert(false);
        }
        Err(ParseError::Malformed)
    }
}

} // verus!
