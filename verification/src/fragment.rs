//! The fragments of an encoded message: its lines, and the literals that
//! the lines announce. A sender pauses between a line that announces a
//! synchronizing literal and the literal.

use crate::codec::Encoder;
use crate::driver::{announcement, spec_announcement, Announcement};
use crate::lex::{first_line_end, lemma_line_end_fits, skip, spec_first_line_end, take};
use crate::strings::LiteralMode;
use vstd::prelude::*;
use vstd::slice::*;

verus! {

/// A piece of an encoded message.
#[derive(Debug, Clone, PartialEq, Eq)]
pub enum Fragment {
    /// A line with the end of the line, or what is left when no line ends.
    Line { data: Vec<u8> },
    /// The payload of a literal, and whether it must be invited.
    Literal { data: Vec<u8>, mode: LiteralMode },
}

/// A fragment as a mathematical value.
pub enum FragmentModel {
    Line { data: Seq<u8> },
    Literal { data: Seq<u8>, mode: LiteralMode },
}

impl DeepView for Fragment {
    type V = FragmentModel;

    open spec fn deep_view(&self) -> FragmentModel {
        match self {
            Fragment::Line { data } => FragmentModel::Line { data: data@ },
            Fragment::Literal { data, mode } => FragmentModel::Literal { data: data@, mode: *mode },
        }
    }
}

impl FragmentModel {
    /// The bytes of the fragment.
    pub open spec fn bytes(self) -> Seq<u8> {
        match self {
            FragmentModel::Line { data } => data,
            FragmentModel::Literal { data, .. } => data,
        }
    }
}

/// The literal that the first line of `buf` announces, if the line ends at
/// the index `i` and the literal is within `buf` as a whole: its length and
/// its mode.
pub open spec fn spec_whole_literal(buf: Seq<u8>, i: nat) -> Option<(u32, LiteralMode)> {
    match spec_announcement(buf.take(i as int)) {
        Some(Announcement::Literal(n, mode)) => if i + 2 + n <= buf.len() {
            Some((n, mode))
        } else {
            None
        },
        _ => None,
    }
}

/// The fragments of `buf`: every line with its end is a fragment; where a
/// line announces a literal that is there as a whole, the literal is the
/// next fragment, whatever its bytes are; what is left without the end of a
/// line is the last fragment.
pub open spec fn spec_fragments(buf: Seq<u8>) -> Seq<FragmentModel>
    decreases buf.len(),
{
    if buf.len() == 0 {
        Seq::empty()
    } else {
        match spec_first_line_end(buf, false) {
            None => seq![FragmentModel::Line { data: buf }],
            Some(i) => {
                let end = i + 2;
                if end > buf.len() {
                    seq![FragmentModel::Line { data: buf }]
                } else {
                    match spec_whole_literal(buf, i) {
                        Some((n, mode)) => seq![
                            FragmentModel::Line { data: buf.take(end as int) },
                            FragmentModel::Literal {
                                data: buf.subrange(end as int, end + n),
                                mode,
                            },
                        ] + spec_fragments(buf.skip(end + n)),
                        None => seq![FragmentModel::Line { data: buf.take(end as int) }]
                            + spec_fragments(buf.skip(end as int)),
                    }
                }
            },
        }
    }
}

/// The bytes of fragments, one after the other.
pub open spec fn spec_join(fragments: Seq<FragmentModel>) -> Seq<u8>
    decreases fragments.len(),
{
    if fragments.len() == 0 {
        Seq::empty()
    } else {
        fragments[0].bytes() + spec_join(fragments.skip(1))
    }
}

/// The fragments of a buffer, put together again, are the buffer: nothing
/// is lost, added or moved.
pub proof fn lemma_fragments_join(buf: Seq<u8>)
    ensures
        spec_join(spec_fragments(buf)) == buf,
    decreases buf.len(),
{
    let f = spec_fragments(buf);
    if buf.len() == 0 {
        assert(spec_join(f) =~= buf);
    } else {
        match spec_first_line_end(buf, false) {
            None => {
                assert(f.skip(1) =~= Seq::<FragmentModel>::empty());
                assert(spec_join(f.skip(1)) =~= Seq::<u8>::empty());
                assert(spec_join(f) =~= buf);
            },
            Some(i) => {
                let end = i + 2;
                if end > buf.len() {
                    assert(f.skip(1) =~= Seq::<FragmentModel>::empty());
                    assert(spec_join(f.skip(1)) =~= Seq::<u8>::empty());
                    assert(spec_join(f) =~= buf);
                } else {
                    match spec_whole_literal(buf, i) {
                        Some((n, mode)) => {
                            let rest = buf.skip(end + n);
                            lemma_fragments_join(rest);
                            let g = f.skip(1);
                            assert(g.skip(1) =~= spec_fragments(rest));
                            assert(spec_join(g) =~= buf.subrange(end as int, end + n) + rest);
                            assert(spec_join(f) =~= buf);
                        },
                        None => {
                            let rest = buf.skip(end as int);
                            lemma_fragments_join(rest);
                            assert(f.skip(1) =~= spec_fragments(rest));
                            assert(spec_join(f) =~= buf);
                        },
                    }
                }
            },
        }
    }
}

/// The first fragments of a buffer that is not empty: a line, and the
/// literal that it announces if there is one. They are added to `acc`, and
/// the number of their bytes is returned.
pub fn first_fragments(cur: &[u8], acc: &mut Vec<Fragment>) -> (used: usize)
    requires
        cur@.len() >= 1,
    ensures
        1 <= used <= cur@.len(),
        old(acc).deep_view() + spec_fragments(cur@) == final(acc).deep_view() + spec_fragments(
            cur@.skip(used as int),
        ),
{
    let ghost before = acc.deep_view();
    proof {
        lemma_line_end_fits(cur@, false);
    }
    let len = cur.len();
    let end = match first_line_end(cur, false) {
        Some(i) => {
            assert(i + 2 <= len);
            Some(i + 2)
        },
        None => None,
    };
    match end {
        None => {
            acc.push(Fragment::Line { data: slice_to_vec(cur) });
            proof {
                let line = FragmentModel::Line { data: cur@ };
                assert(acc.deep_view() =~= before.push(line));
                assert(cur@.skip(cur@.len() as int) =~= Seq::<u8>::empty());
                assert(spec_fragments(cur@) =~= seq![line]);
                assert(before.push(line) + Seq::<FragmentModel>::empty() =~= before + seq![line]);
            }
            cur.len()
        },
        Some(end) => {
            acc.push(Fragment::Line { data: slice_to_vec(take(cur, end)) });
            let ghost line = FragmentModel::Line { data: cur@.take(end as int) };
            assert(acc.deep_view() =~= before.push(line));
            match whole_literal(cur, end - 2) {
                Some((n, mode)) => {
                    assert(end + n <= len);
                    let data = slice_to_vec(slice_subrange(cur, end, end + n as usize));
                    acc.push(Fragment::Literal { data, mode });
                    proof {
                        let literal = FragmentModel::Literal {
                            data: cur@.subrange(end as int, end + n),
                            mode,
                        };
                        assert(acc.deep_view() =~= before.push(line).push(literal));
                        assert(before.push(line).push(literal) + spec_fragments(
                            cur@.skip(end + n),
                        ) =~= before + (seq![line, literal] + spec_fragments(cur@.skip(end + n))));
                    }
                    end + n as usize
                },
                None => {
                    proof {
                        assert(before.push(line) + spec_fragments(cur@.skip(end as int))
                            =~= before + (seq![line] + spec_fragments(cur@.skip(end as int))));
                    }
                    end
                },
            }
        },
    }
}

/// The literal that the first line of `buf` announces, if the line ends at
/// the index `i` and the literal is within `buf` as a whole.
pub fn whole_literal(buf: &[u8], i: usize) -> (r: Option<(u32, LiteralMode)>)
    requires
        i + 2 <= buf@.len(),
    ensures
        r == spec_whole_literal(buf@, i as nat),
{
    match announcement(take(buf, i)) {
        Some(Announcement::Literal(n, mode)) => if n as usize <= buf.len() - (i + 2) {
            Some((n, mode))
        } else {
            None
        },
        _ => None,
    }
}

/// The fragments of an encoded message.
pub fn fragments(bytes: &[u8]) -> (r: Vec<Fragment>)
    ensures
        r.deep_view() == spec_fragments(bytes@),
{
    let mut acc: Vec<Fragment> = Vec::new();
    let mut pos: usize = 0;
    assert(acc.deep_view() =~= Seq::<FragmentModel>::empty());
    assert(bytes@.skip(0) =~= bytes@);
    assert(Seq::<FragmentModel>::empty() + spec_fragments(bytes@) =~= spec_fragments(bytes@));
    while pos < bytes.len()
        invariant
            pos <= bytes.len(),
            spec_fragments(bytes@) == acc.deep_view() + spec_fragments(bytes@.skip(pos as int)),
        decreases bytes.len() - pos,
    {
        let cur = skip(bytes, pos);
        let used = first_fragments(cur, &mut acc);
        assert(cur@.skip(used as int) =~= bytes@.skip(pos + used));
        pos = pos + used;
    }
    proof {
        assert(bytes@.skip(pos as int) =~= Seq::<u8>::empty());
        assert(acc.deep_view() + Seq::<FragmentModel>::empty() =~= acc.deep_view());
    }
    acc
}

/// The fragments of the wire form of a value.
pub fn encode_fragments<T: Encoder>(value: &T) -> (r: Vec<Fragment>)
    ensures
        r.deep_view() == spec_fragments(T::wire(value.deep_view())),
{
    let bytes = value.encode();
    fragments(bytes.as_slice())
}

} // verus!
