//! The tree's own erasure bounds: a whole syntax model encodes itself into a
//! self-delimiting payload of plain atoms and provably decodes back, so a
//! tree can live inside another tree as an erased submodel like any other
//! model type.
//!
//! The payload grammar is self-delimiting: each node opens with its span's
//! two offsets and a kind code; text carries one string atom; raw lines and
//! nested erased payloads are framed as repeated `1`-marked entries closed
//! by a `0` marker, so no length counts are needed.

use vstd::prelude::*;
use crate::model::{atoms_view, Atom, AtomView, ErasedModel, ErasedView, ModelBounds};
use crate::span::{Span, Spanned};
use crate::syntax::{strings_view, Node, NodeView, SyntaxModel};

verus! {

/// The image of a sequence of raw lines: each line `1`-marked, then a `0`.
pub open spec fn encode_lines_spec(lines: Seq<Seq<char>>) -> Seq<AtomView>
    decreases lines.len(),
{
    if lines.len() == 0 {
        seq![AtomView::Num(0)]
    } else {
        seq![AtomView::Num(1), AtomView::Str(lines[0])] + encode_lines_spec(lines.drop_first())
    }
}

/// The image of a nested erased payload: each atom `1`-marked, then a `0`.
pub open spec fn encode_payload_spec(data: Seq<AtomView>) -> Seq<AtomView>
    decreases data.len(),
{
    if data.len() == 0 {
        seq![AtomView::Num(0)]
    } else {
        seq![AtomView::Num(1), data[0]] + encode_payload_spec(data.drop_first())
    }
}

/// The image of one node kind: a kind code followed by its payload.
pub open spec fn encode_kind_spec(n: NodeView) -> Seq<AtomView> {
    match n {
        NodeView::Space => seq![AtomView::Num(0)],
        NodeView::Parbreak => seq![AtomView::Num(1)],
        NodeView::Linebreak => seq![AtomView::Num(2)],
        NodeView::Text(s) => seq![AtomView::Num(3), AtomView::Str(s)],
        NodeView::Raw(lines) => seq![AtomView::Num(4)] + encode_lines_spec(lines),
        NodeView::ToggleItalic => seq![AtomView::Num(5)],
        NodeView::ToggleBolder => seq![AtomView::Num(6)],
        NodeView::Model(e) => seq![AtomView::Num(7), AtomView::Num(e.tag)]
            + encode_payload_spec(e.data),
    }
}

/// The image of one spanned node: the span's offsets, then the kind.
pub open spec fn encode_node_spec(sn: Spanned<NodeView>) -> Seq<AtomView> {
    seq![AtomView::Num(sn.span.start), AtomView::Num(sn.span.end)] + encode_kind_spec(sn.v)
}

/// The image of a node sequence: the nodes one after the other.
pub open spec fn encode_nodes_spec(nodes: Seq<Spanned<NodeView>>) -> Seq<AtomView>
    decreases nodes.len(),
{
    if nodes.len() == 0 {
        Seq::<AtomView>::empty()
    } else {
        encode_node_spec(nodes[0]) + encode_nodes_spec(nodes.drop_first())
    }
}

/// Read a framed sequence of raw lines off the front of a payload; yields
/// the lines and what follows them.
pub open spec fn decode_lines_spec(data: Seq<AtomView>) -> Option<(Seq<Seq<char>>, Seq<AtomView>)>
    decreases data.len(),
{
    if data.len() == 0 {
        None
    } else {
        match data[0] {
            AtomView::Num(code) => if code == 0 {
                Some((Seq::<Seq<char>>::empty(), data.drop_first()))
            } else if code == 1 && data.len() >= 2 {
                match data[1] {
                    AtomView::Str(line) => match decode_lines_spec(data.skip(2)) {
                        Some(p) => Some((seq![line] + p.0, p.1)),
                        None => None,
                    },
                    _ => None,
                }
            } else {
                None
            },
            _ => None,
        }
    }
}

/// Read a framed nested payload off the front of a payload; yields the
/// nested atoms and what follows them.
pub open spec fn decode_payload_spec(data: Seq<AtomView>) -> Option<(Seq<AtomView>, Seq<AtomView>)>
    decreases data.len(),
{
    if data.len() == 0 {
        None
    } else {
        match data[0] {
            AtomView::Num(code) => if code == 0 {
                Some((Seq::<AtomView>::empty(), data.drop_first()))
            } else if code == 1 && data.len() >= 2 {
                match decode_payload_spec(data.skip(2)) {
                    Some(p) => Some((seq![data[1]] + p.0, p.1)),
                    None => None,
                }
            } else {
                None
            },
            _ => None,
        }
    }
}

/// Read one node kind off the front of a payload.
pub open spec fn decode_kind_spec(data: Seq<AtomView>) -> Option<(NodeView, Seq<AtomView>)> {
    if data.len() == 0 {
        None
    } else {
        match data[0] {
            AtomView::Num(code) => if code == 0 {
                Some((NodeView::Space, data.drop_first()))
            } else if code == 1 {
                Some((NodeView::Parbreak, data.drop_first()))
            } else if code == 2 {
                Some((NodeView::Linebreak, data.drop_first()))
            } else if code == 3 && data.len() >= 2 {
                match data[1] {
                    AtomView::Str(s) => Some((NodeView::Text(s), data.skip(2))),
                    _ => None,
                }
            } else if code == 4 {
                match decode_lines_spec(data.drop_first()) {
                    Some(p) => Some((NodeView::Raw(p.0), p.1)),
                    None => None,
                }
            } else if code == 5 {
                Some((NodeView::ToggleItalic, data.drop_first()))
            } else if code == 6 {
                Some((NodeView::ToggleBolder, data.drop_first()))
            } else if code == 7 && data.len() >= 2 {
                match data[1] {
                    AtomView::Num(tag) => match decode_payload_spec(data.skip(2)) {
                        Some(p) => Some((
                            NodeView::Model(ErasedView { tag, data: p.0 }),
                            p.1,
                        )),
                        None => None,
                    },
                    _ => None,
                }
            } else {
                None
            },
            _ => None,
        }
    }
}

/// Read one spanned node off the front of a payload.
pub open spec fn decode_node_spec(data: Seq<AtomView>) -> Option<(Spanned<NodeView>, Seq<AtomView>)> {
    if data.len() < 2 {
        None
    } else {
        match (data[0], data[1]) {
            (AtomView::Num(start), AtomView::Num(end)) => match decode_kind_spec(data.skip(2)) {
                Some(p) => Some((
                    Spanned { v: p.0, span: Span { start, end } },
                    p.1,
                )),
                None => None,
            },
            _ => None,
        }
    }
}

/// Read nodes until the payload is exhausted.
pub open spec fn decode_nodes_spec(data: Seq<AtomView>) -> Option<Seq<Spanned<NodeView>>>
    decreases data.len(),
{
    if data.len() == 0 {
        Some(Seq::<Spanned<NodeView>>::empty())
    } else {
        match decode_node_spec(data) {
            Some(p) => if p.1.len() < data.len() {
                match decode_nodes_spec(p.1) {
                    Some(nodes) => Some(seq![p.0] + nodes),
                    None => None,
                }
            } else {
                None
            },
            None => None,
        }
    }
}

/// Decoding lines inverts encoding them, whatever follows the frame.
proof fn lemma_lines_round_trip(lines: Seq<Seq<char>>, rest: Seq<AtomView>)
    ensures
        decode_lines_spec(encode_lines_spec(lines) + rest) == Some((lines, rest)),
    decreases lines.len(),
{
    let data = encode_lines_spec(lines) + rest;
    if lines.len() == 0 {
        assert(data[0] == AtomView::Num(0));
        assert(data.drop_first() =~= rest);
        assert(Seq::<Seq<char>>::empty() =~= lines);
    } else {
        assert(data[0] == AtomView::Num(1));
        assert(data[1] == AtomView::Str(lines[0]));
        assert(data.skip(2) =~= encode_lines_spec(lines.drop_first()) + rest);
        lemma_lines_round_trip(lines.drop_first(), rest);
        assert(seq![lines[0]] + lines.drop_first() =~= lines);
    }
}

/// Decoding a nested payload inverts encoding it, whatever follows the
/// frame.
proof fn lemma_payload_round_trip(payload: Seq<AtomView>, rest: Seq<AtomView>)
    ensures
        decode_payload_spec(encode_payload_spec(payload) + rest) == Some((payload, rest)),
    decreases payload.len(),
{
    let data = encode_payload_spec(payload) + rest;
    if payload.len() == 0 {
        assert(data[0] == AtomView::Num(0));
        assert(data.drop_first() =~= rest);
        assert(Seq::<AtomView>::empty() =~= payload);
    } else {
        assert(data[0] == AtomView::Num(1));
        assert(data[1] == payload[0]);
        assert(data.skip(2) =~= encode_payload_spec(payload.drop_first()) + rest);
        lemma_payload_round_trip(payload.drop_first(), rest);
        assert(seq![payload[0]] + payload.drop_first() =~= payload);
    }
}

/// Decoding a kind inverts encoding it, whatever follows it; a kind takes at
/// least one atom.
proof fn lemma_kind_round_trip(n: NodeView, rest: Seq<AtomView>)
    ensures
        decode_kind_spec(encode_kind_spec(n) + rest) == Some((n, rest)),
        encode_kind_spec(n).len() >= 1,
{
    let data = encode_kind_spec(n) + rest;
    match n {
        NodeView::Space => {
            assert(data.drop_first() =~= rest);
        },
        NodeView::Parbreak => {
            assert(data.drop_first() =~= rest);
        },
        NodeView::Linebreak => {
            assert(data.drop_first() =~= rest);
        },
        NodeView::Text(s) => {
            assert(data.skip(2) =~= rest);
        },
        NodeView::Raw(lines) => {
            assert(data.drop_first() =~= encode_lines_spec(lines) + rest);
            lemma_lines_round_trip(lines, rest);
        },
        NodeView::ToggleItalic => {
            assert(data.drop_first() =~= rest);
        },
        NodeView::ToggleBolder => {
            assert(data.drop_first() =~= rest);
        },
        NodeView::Model(e) => {
            assert(data.skip(2) =~= encode_payload_spec(e.data) + rest);
            lemma_payload_round_trip(e.data, rest);
            assert(ErasedView { tag: e.tag, data: e.data } =~= e);
        },
    }
}

/// Decoding a node inverts encoding it, whatever follows it; a node takes at
/// least three atoms.
proof fn lemma_node_round_trip(sn: Spanned<NodeView>, rest: Seq<AtomView>)
    ensures
        decode_node_spec(encode_node_spec(sn) + rest) == Some((sn, rest)),
        encode_node_spec(sn).len() >= 3,
{
    let data = encode_node_spec(sn) + rest;
    assert(data[0] == AtomView::Num(sn.span.start));
    assert(data[1] == AtomView::Num(sn.span.end));
    assert(data.skip(2) =~= encode_kind_spec(sn.v) + rest);
    lemma_kind_round_trip(sn.v, rest);
    assert(Spanned { v: sn.v, span: Span { start: sn.span.start, end: sn.span.end } } =~= sn);
}

/// Decoding a node sequence inverts encoding it.
proof fn lemma_nodes_round_trip(nodes: Seq<Spanned<NodeView>>)
    ensures
        decode_nodes_spec(encode_nodes_spec(nodes)) == Some(nodes),
    decreases nodes.len(),
{
    let data = encode_nodes_spec(nodes);
    if nodes.len() == 0 {
        assert(Seq::<Spanned<NodeView>>::empty() =~= nodes);
    } else {
        let tail = encode_nodes_spec(nodes.drop_first());
        lemma_node_round_trip(nodes[0], tail);
        assert(decode_node_spec(data) == Some((nodes[0], tail)));
        lemma_nodes_round_trip(nodes.drop_first());
        assert(seq![nodes[0]] + nodes.drop_first() =~= nodes);
    }
}

fn encode_lines(out: &mut Vec<Atom>, lines: &Vec<String>)
    ensures
        atoms_view(final(out)@) == atoms_view(old(out)@)
            + encode_lines_spec(strings_view(lines@)),
{
    let ghost sv = strings_view(lines@);
    let ghost base = atoms_view(old(out)@);
    proof {
        assert(sv.skip(0) =~= sv);
    }
    let n: usize = lines.len();
    let mut i: usize = 0;
    while i < n
        invariant
            n == lines@.len(),
            0 <= i <= n,
            sv == strings_view(lines@),
            base == atoms_view(old(out)@),
            sv.len() == n,
            atoms_view(out@) + encode_lines_spec(sv.skip(i as int)) == base
                + encode_lines_spec(sv),
        decreases n - i,
    {
        let ghost prev = atoms_view(out@);
        out.push(Atom::Num(1));
        out.push(Atom::Str(lines[i].clone()));
        proof {
            let piece = seq![AtomView::Num(1), AtomView::Str(lines@[i as int]@)];
            assert(atoms_view(out@) =~= prev + piece);
            assert(sv.skip(i as int).drop_first() =~= sv.skip(i as int + 1));
            assert(sv.skip(i as int)[0] == sv[i as int]);
            assert(encode_lines_spec(sv.skip(i as int)) == piece
                + encode_lines_spec(sv.skip(i as int + 1)));
            assert((prev + piece) + encode_lines_spec(sv.skip(i as int + 1)) =~= prev + (piece
                + encode_lines_spec(sv.skip(i as int + 1))));
        }
        i += 1;
    }
    let ghost prev = atoms_view(out@);
    out.push(Atom::Num(0));
    proof {
        assert(sv.skip(n as int) =~= Seq::<Seq<char>>::empty());
        assert(encode_lines_spec(sv.skip(n as int)) =~= seq![AtomView::Num(0)]);
        assert(atoms_view(out@) =~= prev + seq![AtomView::Num(0)]);
    }
}

fn encode_payload(out: &mut Vec<Atom>, payload: &Vec<Atom>)
    ensures
        atoms_view(final(out)@) == atoms_view(old(out)@)
            + encode_payload_spec(atoms_view(payload@)),
{
    let ghost pv = atoms_view(payload@);
    let ghost base = atoms_view(old(out)@);
    proof {
        assert(pv.skip(0) =~= pv);
    }
    let n: usize = payload.len();
    let mut i: usize = 0;
    while i < n
        invariant
            n == payload@.len(),
            0 <= i <= n,
            pv == atoms_view(payload@),
            base == atoms_view(old(out)@),
            pv.len() == n,
            atoms_view(out@) + encode_payload_spec(pv.skip(i as int)) == base
                + encode_payload_spec(pv),
        decreases n - i,
    {
        let ghost prev = atoms_view(out@);
        out.push(Atom::Num(1));
        out.push(payload[i].clone());
        proof {
            let piece = seq![AtomView::Num(1), payload@[i as int]@];
            assert(atoms_view(out@) =~= prev + piece);
            assert(pv.skip(i as int).drop_first() =~= pv.skip(i as int + 1));
            assert(pv.skip(i as int)[0] == pv[i as int]);
            assert(encode_payload_spec(pv.skip(i as int)) == piece
                + encode_payload_spec(pv.skip(i as int + 1)));
            assert((prev + piece) + encode_payload_spec(pv.skip(i as int + 1)) =~= prev + (piece
                + encode_payload_spec(pv.skip(i as int + 1))));
        }
        i += 1;
    }
    let ghost prev = atoms_view(out@);
    out.push(Atom::Num(0));
    proof {
        assert(pv.skip(n as int) =~= Seq::<AtomView>::empty());
        assert(encode_payload_spec(pv.skip(n as int)) =~= seq![AtomView::Num(0)]);
        assert(atoms_view(out@) =~= prev + seq![AtomView::Num(0)]);
    }
}

fn encode_node(out: &mut Vec<Atom>, sn: &Spanned<Node>)
    ensures
        atoms_view(final(out)@) == atoms_view(old(out)@) + encode_node_spec(sn@),
{
    out.push(Atom::Num(sn.span.start));
    out.push(Atom::Num(sn.span.end));
    let ghost headed = atoms_view(out@);
    proof {
        assert(headed =~= atoms_view(old(out)@)
            + seq![AtomView::Num(sn.span.start), AtomView::Num(sn.span.end)]);
    }
    match &sn.v {
        Node::Space => {
            out.push(Atom::Num(0));
            proof {
                assert(atoms_view(out@) =~= headed + encode_kind_spec(sn@.v));
            }
        },
        Node::Parbreak => {
            out.push(Atom::Num(1));
            proof {
                assert(atoms_view(out@) =~= headed + encode_kind_spec(sn@.v));
            }
        },
        Node::Linebreak => {
            out.push(Atom::Num(2));
            proof {
                assert(atoms_view(out@) =~= headed + encode_kind_spec(sn@.v));
            }
        },
        Node::Text(s) => {
            out.push(Atom::Num(3));
            out.push(Atom::Str(s.clone()));
            proof {
                assert(atoms_view(out@) =~= headed + encode_kind_spec(sn@.v));
            }
        },
        Node::Raw(lines) => {
            out.push(Atom::Num(4));
            let ghost mid = atoms_view(out@);
            proof {
                assert(mid =~= headed + seq![AtomView::Num(4)]);
            }
            encode_lines(out, lines);
            proof {
                assert(atoms_view(out@) == mid + encode_lines_spec(strings_view(lines@)));
                assert((headed + seq![AtomView::Num(4)])
                    + encode_lines_spec(strings_view(lines@)) =~= headed + (seq![AtomView::Num(4)]
                    + encode_lines_spec(strings_view(lines@))));
                assert(atoms_view(out@) == headed + encode_kind_spec(sn@.v));
            }
        },
        Node::ToggleItalic => {
            out.push(Atom::Num(5));
            proof {
                assert(atoms_view(out@) =~= headed + encode_kind_spec(sn@.v));
            }
        },
        Node::ToggleBolder => {
            out.push(Atom::Num(6));
            proof {
                assert(atoms_view(out@) =~= headed + encode_kind_spec(sn@.v));
            }
        },
        Node::Model(m) => {
            out.push(Atom::Num(7));
            out.push(Atom::Num(m.tag_value()));
            let ghost mid = atoms_view(out@);
            proof {
                assert(mid =~= headed + seq![AtomView::Num(7), AtomView::Num(m@.tag)]);
            }
            encode_payload(out, m.payload());
            proof {
                assert(atoms_view(out@) == mid + encode_payload_spec(m@.data));
                assert((headed + seq![AtomView::Num(7), AtomView::Num(m@.tag)])
                    + encode_payload_spec(m@.data) =~= headed + (seq![
                    AtomView::Num(7),
                    AtomView::Num(m@.tag),
                ] + encode_payload_spec(m@.data)));
                assert(atoms_view(out@) == headed + encode_kind_spec(sn@.v));
            }
        },
    }
    proof {
        assert((atoms_view(old(out)@)
            + seq![AtomView::Num(sn.span.start), AtomView::Num(sn.span.end)])
            + encode_kind_spec(sn@.v) =~= atoms_view(old(out)@) + encode_node_spec(sn@));
    }
}

fn decode_lines(data: &Vec<Atom>, start: usize) -> (r: Option<(Vec<String>, usize)>)
    requires
        start <= data@.len(),
    ensures
        match r {
            Some(p) => {
                &&& start <= p.1 <= data@.len()
                &&& decode_lines_spec(atoms_view(data@).skip(start as int)) == Some(
                    (strings_view(p.0@), atoms_view(data@).skip(p.1 as int)),
                )
            },
            None => decode_lines_spec(atoms_view(data@).skip(start as int)) is None,
        },
{
    let ghost full = atoms_view(data@).skip(start as int);
    let mut lines: Vec<String> = Vec::new();
    let mut i: usize = start;
    loop
        invariant
            start <= i <= data@.len(),
            full == atoms_view(data@).skip(start as int),
            decode_lines_spec(full) == (match decode_lines_spec(
                atoms_view(data@).skip(i as int),
            ) {
                Some(p) => Some((strings_view(lines@) + p.0, p.1)),
                None => None::<(Seq<Seq<char>>, Seq<AtomView>)>,
            }),
        decreases data@.len() - i,
    {
        let ghost cur = atoms_view(data@).skip(i as int);
        if i >= data.len() {
            proof {
                assert(cur.len() == 0);
            }
            return None;
        }
        proof {
            assert(cur[0] == data@[i as int]@);
        }
        match &data[i] {
            Atom::Num(code) => {
                if *code == 0 {
                    proof {
                        assert(cur.drop_first() =~= atoms_view(data@).skip(i as int + 1));
                        assert(decode_lines_spec(cur) == Some(
                            (Seq::<Seq<char>>::empty(), atoms_view(data@).skip(i as int + 1)),
                        ));
                        assert(strings_view(lines@) + Seq::<Seq<char>>::empty() =~= strings_view(
                            lines@,
                        ));
                    }
                    return Some((lines, i + 1));
                } else if *code == 1 && i + 1 < data.len() {
                    match &data[i + 1] {
                        Atom::Str(s) => {
                            let ghost pre = strings_view(lines@);
                            lines.push(s.clone());
                            proof {
                                let next = atoms_view(data@).skip(i as int + 2);
                                assert(cur.len() >= 2);
                                assert(cur[1] == data@[i as int + 1]@);
                                assert(cur.skip(2) =~= next);
                                assert(decode_lines_spec(cur) == (match decode_lines_spec(next) {
                                    Some(p) => Some((seq![s@] + p.0, p.1)),
                                    None => None::<(Seq<Seq<char>>, Seq<AtomView>)>,
                                }));
                                assert(strings_view(lines@) =~= pre + seq![s@]);
                                match decode_lines_spec(next) {
                                    Some(p) => {
                                        assert(pre + (seq![s@] + p.0) =~= (pre + seq![s@]) + p.0);
                                    },
                                    None => {},
                                }
                            }
                            i = i + 2;
                        },
                        _ => {
                            return None;
                        },
                    }
                } else {
                    proof {
                        if *code == 1 {
                            assert(cur.len() < 2);
                        }
                    }
                    return None;
                }
            },
            _ => {
                return None;
            },
        }
    }
}

fn decode_payload(data: &Vec<Atom>, start: usize) -> (r: Option<(Vec<Atom>, usize)>)
    requires
        start <= data@.len(),
    ensures
        match r {
            Some(p) => {
                &&& start <= p.1 <= data@.len()
                &&& decode_payload_spec(atoms_view(data@).skip(start as int)) == Some(
                    (atoms_view(p.0@), atoms_view(data@).skip(p.1 as int)),
                )
            },
            None => decode_payload_spec(atoms_view(data@).skip(start as int)) is None,
        },
{
    let ghost full = atoms_view(data@).skip(start as int);
    let mut payload: Vec<Atom> = Vec::new();
    let mut i: usize = start;
    loop
        invariant
            start <= i <= data@.len(),
            full == atoms_view(data@).skip(start as int),
            decode_payload_spec(full) == (match decode_payload_spec(
                atoms_view(data@).skip(i as int),
            ) {
                Some(p) => Some((atoms_view(payload@) + p.0, p.1)),
                None => None::<(Seq<AtomView>, Seq<AtomView>)>,
            }),
        decreases data@.len() - i,
    {
        let ghost cur = atoms_view(data@).skip(i as int);
        if i >= data.len() {
            proof {
                assert(cur.len() == 0);
            }
            return None;
        }
        proof {
            assert(cur[0] == data@[i as int]@);
        }
        match &data[i] {
            Atom::Num(code) => {
                if *code == 0 {
                    proof {
                        assert(cur.drop_first() =~= atoms_view(data@).skip(i as int + 1));
                        assert(decode_payload_spec(cur) == Some(
                            (Seq::<AtomView>::empty(), atoms_view(data@).skip(i as int + 1)),
                        ));
                        assert(atoms_view(payload@) + Seq::<AtomView>::empty() =~= atoms_view(
                            payload@,
                        ));
                    }
                    return Some((payload, i + 1));
                } else if *code == 1 && i + 1 < data.len() {
                    let ghost pre = atoms_view(payload@);
                    let atom = data[i + 1].clone();
                    payload.push(atom);
                    proof {
                        let next = atoms_view(data@).skip(i as int + 2);
                        assert(cur.len() >= 2);
                        assert(cur[1] == data@[i as int + 1]@);
                        assert(cur.skip(2) =~= next);
                        assert(decode_payload_spec(cur) == (match decode_payload_spec(next) {
                            Some(p) => Some((seq![cur[1]] + p.0, p.1)),
                            None => None::<(Seq<AtomView>, Seq<AtomView>)>,
                        }));
                        assert(atoms_view(payload@) =~= pre + seq![cur[1]]);
                        match decode_payload_spec(next) {
                            Some(p) => {
                                assert(pre + (seq![cur[1]] + p.0) =~= (pre + seq![cur[1]]) + p.0);
                            },
                            None => {},
                        }
                    }
                    i = i + 2;
                } else {
                    proof {
                        if *code == 1 {
                            assert(cur.len() < 2);
                        }
                    }
                    return None;
                }
            },
            _ => {
                return None;
            },
        }
    }
}

fn decode_node(data: &Vec<Atom>, start: usize) -> (r: Option<(Spanned<Node>, usize)>)
    requires
        start <= data@.len(),
    ensures
        match r {
            Some(p) => {
                &&& start < p.1 <= data@.len()
                &&& decode_node_spec(atoms_view(data@).skip(start as int)) == Some(
                    (p.0@, atoms_view(data@).skip(p.1 as int)),
                )
            },
            None => decode_node_spec(atoms_view(data@).skip(start as int)) is None,
        },
{
    let ghost full = atoms_view(data@).skip(start as int);
    if data.len() < 2 || start > data.len() - 2 {
        proof {
            assert(full.len() < 2);
        }
        return None;
    }
    proof {
        assert(full[0] == data@[start as int]@);
        assert(full[1] == data@[start as int + 1]@);
    }
    let span = match (&data[start], &data[start + 1]) {
        (Atom::Num(s0), Atom::Num(e0)) => Span { start: *s0, end: *e0 },
        _ => {
            return None;
        },
    };
    let i: usize = start + 2;
    let ghost kinddata = atoms_view(data@).skip(i as int);
    proof {
        assert(full.skip(2) =~= kinddata);
    }
    if i >= data.len() {
        proof {
            assert(kinddata.len() == 0);
        }
        return None;
    }
    proof {
        assert(kinddata[0] == data@[i as int]@);
    }
    match &data[i] {
        Atom::Num(code) => {
            if *code == 0 {
                proof {
                    assert(kinddata.drop_first() =~= atoms_view(data@).skip(i as int + 1));
                }
                Some((Spanned { v: Node::Space, span }, i + 1))
            } else if *code == 1 {
                proof {
                    assert(kinddata.drop_first() =~= atoms_view(data@).skip(i as int + 1));
                }
                Some((Spanned { v: Node::Parbreak, span }, i + 1))
            } else if *code == 2 {
                proof {
                    assert(kinddata.drop_first() =~= atoms_view(data@).skip(i as int + 1));
                }
                Some((Spanned { v: Node::Linebreak, span }, i + 1))
            } else if *code == 3 {
                if i + 1 < data.len() {
                    match &data[i + 1] {
                        Atom::Str(s) => {
                            proof {
                                assert(kinddata.len() >= 2);
                                assert(kinddata[1] == data@[i as int + 1]@);
                                assert(kinddata.skip(2) =~= atoms_view(data@).skip(i as int + 2));
                            }
                            Some((Spanned { v: Node::Text(s.clone()), span }, i + 2))
                        },
                        _ => None,
                    }
                } else {
                    proof {
                        assert(kinddata.len() < 2);
                    }
                    None
                }
            } else if *code == 4 {
                proof {
                    assert(kinddata.drop_first() =~= atoms_view(data@).skip(i as int + 1));
                }
                match decode_lines(data, i + 1) {
                    Some((rawlines, j)) => Some((Spanned { v: Node::Raw(rawlines), span }, j)),
                    None => None,
                }
            } else if *code == 5 {
                proof {
                    assert(kinddata.drop_first() =~= atoms_view(data@).skip(i as int + 1));
                }
                Some((Spanned { v: Node::ToggleItalic, span }, i + 1))
            } else if *code == 6 {
                proof {
                    assert(kinddata.drop_first() =~= atoms_view(data@).skip(i as int + 1));
                }
                Some((Spanned { v: Node::ToggleBolder, span }, i + 1))
            } else if *code == 7 {
                if i + 1 < data.len() {
                    match &data[i + 1] {
                        Atom::Num(tag) => {
                            proof {
                                assert(kinddata.len() >= 2);
                                assert(kinddata[1] == data@[i as int + 1]@);
                                assert(kinddata.skip(2) =~= atoms_view(data@).skip(i as int + 2));
                            }
                            match decode_payload(data, i + 2) {
                                Some((payload, j)) => {
                                    let erased = ErasedModel::from_parts(*tag, payload);
                                    Some((Spanned { v: Node::Model(Box::new(erased)), span }, j))
                                },
                                None => None,
                            }
                        },
                        _ => None,
                    }
                } else {
                    proof {
                        assert(kinddata.len() < 2);
                    }
                    None
                }
            } else {
                None
            }
        },
        _ => None,
    }
}

impl ModelBounds for SyntaxModel {
    open spec fn tag_spec() -> u64 {
        1
    }

    open spec fn encode_spec(v: Seq<Spanned<NodeView>>) -> Seq<AtomView> {
        encode_nodes_spec(v)
    }

    open spec fn decode_spec(data: Seq<AtomView>) -> Option<Seq<Spanned<NodeView>>> {
        decode_nodes_spec(data)
    }

    proof fn lemma_encode_decode(v: Seq<Spanned<NodeView>>)
    {
        lemma_nodes_round_trip(v);
    }

    fn type_tag() -> (t: u64)
    {
        1
    }

    fn encode(&self) -> (data: Vec<Atom>)
    {
        let mut out: Vec<Atom> = Vec::new();
        proof {
            assert(self@.skip(0) =~= self@);
            assert(atoms_view(out@) =~= Seq::<AtomView>::empty());
        }
        let n: usize = self.nodes.len();
        let mut i: usize = 0;
        while i < n
            invariant
                n == self.nodes@.len(),
                0 <= i <= n,
                self@.len() == n,
                atoms_view(out@) + encode_nodes_spec(self@.skip(i as int)) == encode_nodes_spec(
                    self@,
                ),
            decreases n - i,
        {
            let ghost prev = atoms_view(out@);
            encode_node(&mut out, &self.nodes[i]);
            proof {
                assert(self@.skip(i as int)[0] == self@[i as int]);
                assert(self@[i as int] == self.nodes@[i as int]@);
                assert(self@.skip(i as int).drop_first() =~= self@.skip(i as int + 1));
                assert(encode_nodes_spec(self@.skip(i as int)) == encode_node_spec(
                    self.nodes@[i as int]@,
                ) + encode_nodes_spec(self@.skip(i as int + 1)));
                assert((prev + encode_node_spec(self.nodes@[i as int]@)) + encode_nodes_spec(
                    self@.skip(i as int + 1),
                ) =~= prev + (encode_node_spec(self.nodes@[i as int]@) + encode_nodes_spec(
                    self@.skip(i as int + 1),
                )));
            }
            i += 1;
        }
        proof {
            assert(self@.skip(n as int) =~= Seq::<Spanned<NodeView>>::empty());
            assert(atoms_view(out@) + Seq::<AtomView>::empty() =~= atoms_view(out@));
        }
        out
    }

    fn decode(data: &Vec<Atom>) -> (r: Option<Self>)
    {
        let ghost full = atoms_view(data@);
        let mut nodes: Vec<Spanned<Node>> = Vec::new();
        let mut i: usize = 0;
        proof {
            assert(full.skip(0) =~= full);
        }
        while i < data.len()
            invariant
                0 <= i <= data@.len(),
                full == atoms_view(data@),
                decode_nodes_spec(full) == (match decode_nodes_spec(
                    atoms_view(data@).skip(i as int),
                ) {
                    Some(ns) => Some(nodes@.map_values(|sn: Spanned<Node>| sn@) + ns),
                    None => None::<Seq<Spanned<NodeView>>>,
                }),
            decreases data@.len() - i,
        {
            let ghost cur = atoms_view(data@).skip(i as int);
            let ghost pre = nodes@.map_values(|sn: Spanned<Node>| sn@);
            match decode_node(data, i) {
                Some((sn, j)) => {
                    proof {
                        let next = atoms_view(data@).skip(j as int);
                        assert(cur.len() > 0);
                        assert(next.len() < cur.len());
                        assert(decode_nodes_spec(cur) == (match decode_nodes_spec(next) {
                            Some(ns) => Some(seq![sn@] + ns),
                            None => None::<Seq<Spanned<NodeView>>>,
                        }));
                    }
                    nodes.push(sn);
                    proof {
                        let next = atoms_view(data@).skip(j as int);
                        assert(nodes@.map_values(|x: Spanned<Node>| x@) =~= pre + seq![sn@]);
                        match decode_nodes_spec(next) {
                            Some(ns) => {
                                assert(pre + (seq![sn@] + ns) =~= (pre + seq![sn@]) + ns);
                            },
                            None => {},
                        }
                    }
                    i = j;
                },
                None => {
                    proof {
                        assert(cur.len() > 0);
                        assert(decode_nodes_spec(cur) is None);
                    }
                    return None;
                },
            }
        }
        proof {
            assert(atoms_view(data@).skip(i as int).len() == 0);
            assert(atoms_view(data@).skip(i as int) =~= Seq::<AtomView>::empty());
            let m = SyntaxModel { nodes };
            assert(m@ + Seq::<Spanned<NodeView>>::empty() =~= m@);
        }
        Some(SyntaxModel { nodes })
    }
}

} // verus!
