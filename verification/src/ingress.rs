//! The ingress-side byte classifier.
//!
//! The ingress manager owns the serial receive path: it accumulates raw
//! bytes into a fixed-capacity line buffer and, on each completed line,
//! classifies the accumulated data with this precedence: a solicited
//! terminator (`OK` or `ERROR`) while receiving finalizes the accumulated
//! response block; a line matching a registered URC prefix becomes an
//! unsolicited entry at once; a command echo starts a fresh accumulation
//! and enters the receiving state; any other line is appended to the
//! in-progress block while receiving and dropped otherwise. A line or
//! block that outgrows its buffer is a classification failure, never a
//! crash. Control messages from the client reset the parse state or force
//! it into receiving.

use vstd::prelude::*;

use crate::Command;
use crate::codec::CR;
use crate::codec::LF;
use crate::codec::slice_starts_with;
use crate::codec::starts_with;
use crate::error::InternalError;
use crate::error::InternalErrorView;

verus! {

/// Capacity of the line buffer and of the response accumulation buffer.
pub const BUF_CAPACITY: usize = 256;

/// The classification state: idle, or collecting a solicited response.
#[derive(Clone, Copy, Debug, PartialEq, Eq, Structural)]
pub enum IngressState {
    Idle,
    ReceivingResponse,
}

/// One classified entry, ready for its channel.
#[derive(Debug, PartialEq, Eq)]
pub enum IngressItem {
    /// A finalized solicited reply: the accumulated block, or the device
    /// error.
    Response(Result<Vec<u8>, InternalError>),
    /// A single unsolicited line.
    Urc(Vec<u8>),
}

/// The mathematical value of a classified entry.
pub enum IngressItemView {
    Response(Result<Seq<u8>, InternalErrorView>),
    Urc(Seq<u8>),
}

impl View for IngressItem {
    type V = IngressItemView;

    open spec fn view(&self) -> IngressItemView {
        match self {
            IngressItem::Response(res) => IngressItemView::Response(
                match res {
                    Ok(v) => Ok(v@),
                    Err(e) => Err(e@),
                },
            ),
            IngressItem::Urc(v) => IngressItemView::Urc(v@),
        }
    }
}

pub open spec fn opt_item_view(r: Option<IngressItem>) -> Option<IngressItemView> {
    match r {
        Some(i) => Some(i@),
        None => None,
    }
}

/// The abstract state of the ingress manager: classification state, the
/// bytes of the line in progress, and the accumulated response block.
pub struct IngressModel {
    pub state: IngressState,
    pub line: Seq<u8>,
    pub block: Seq<u8>,
}

/// A completed line with a trailing carriage return removed.
pub open spec fn strip_cr(l: Seq<u8>) -> Seq<u8> {
    if l.len() > 0 && l.last() == CR {
        l.drop_last()
    } else {
        l
    }
}

/// `"OK"`
pub open spec fn is_ok_line(l: Seq<u8>) -> bool {
    l == seq![79u8, 75]
}

/// `"ERROR"`
pub open spec fn is_error_line(l: Seq<u8>) -> bool {
    l == seq![69u8, 82, 82, 79, 82]
}

/// A line opening with `"AT"`: the echo of a written command.
pub open spec fn is_echo_line(l: Seq<u8>) -> bool {
    l.len() >= 2 && l[0] == 65 && l[1] == 84
}

/// Whether the line opens with one of the registered URC prefixes.
pub open spec fn matches_urc(prefixes: Seq<Seq<u8>>, l: Seq<u8>) -> bool {
    exists|k: int| 0 <= k < prefixes.len() && starts_with(l, #[trigger] prefixes[k])
}

/// What one received byte does to the ingress state, and what it emits.
pub open spec fn spec_step(m: IngressModel, prefixes: Seq<Seq<u8>>, b: u8) -> (
    IngressModel,
    Option<IngressItemView>,
) {
    if b != LF {
        if m.line.len() < BUF_CAPACITY {
            (IngressModel { line: m.line.push(b), ..m }, None)
        } else {
            (
                IngressModel { state: IngressState::Idle, line: Seq::empty(), block: Seq::empty() },
                if m.state == IngressState::ReceivingResponse {
                    Some(IngressItemView::Response(Err(InternalErrorView::Overflow)))
                } else {
                    None
                },
            )
        }
    } else {
        let l = strip_cr(m.line);
        let cleared = IngressModel { line: Seq::empty(), ..m };
        if l.len() == 0 {
            (cleared, None)
        } else if m.state == IngressState::ReceivingResponse && is_ok_line(l) {
            (
                IngressModel { state: IngressState::Idle, line: Seq::empty(), block: Seq::empty() },
                Some(IngressItemView::Response(Ok(m.block))),
            )
        } else if m.state == IngressState::ReceivingResponse && is_error_line(l) {
            (
                IngressModel { state: IngressState::Idle, line: Seq::empty(), block: Seq::empty() },
                Some(IngressItemView::Response(Err(InternalErrorView::Error(m.block)))),
            )
        } else if matches_urc(prefixes, l) {
            (cleared, Some(IngressItemView::Urc(l)))
        } else if is_echo_line(l) {
            (
                IngressModel {
                    state: IngressState::ReceivingResponse,
                    line: Seq::empty(),
                    block: Seq::empty(),
                },
                None,
            )
        } else if m.state == IngressState::ReceivingResponse {
            let nb = if m.block.len() == 0 {
                l
            } else {
                m.block + seq![CR, LF] + l
            };
            if nb.len() <= BUF_CAPACITY {
                (
                    IngressModel {
                        state: IngressState::ReceivingResponse,
                        line: Seq::empty(),
                        block: nb,
                    },
                    None,
                )
            } else {
                (
                    IngressModel {
                        state: IngressState::Idle,
                        line: Seq::empty(),
                        block: Seq::empty(),
                    },
                    Some(IngressItemView::Response(Err(InternalErrorView::Overflow))),
                )
            }
        } else {
            (cleared, None)
        }
    }
}

/// What a whole chunk of received bytes does: the states and emitted
/// entries of stepping through the chunk byte by byte, in order.
pub open spec fn spec_run(m: IngressModel, prefixes: Seq<Seq<u8>>, bytes: Seq<u8>) -> (
    IngressModel,
    Seq<IngressItemView>,
)
    decreases bytes.len(),
{
    if bytes.len() == 0 {
        (m, Seq::empty())
    } else {
        let stepped = spec_step(m, prefixes, bytes[0]);
        let run = spec_run(stepped.0, prefixes, bytes.drop_first());
        (
            run.0,
            match stepped.1 {
                Some(i) => seq![i] + run.1,
                None => run.1,
            },
        )
    }
}

/// The registered prefixes, each as a byte sequence.
pub open spec fn prefix_views(v: Vec<Vec<u8>>) -> Seq<Seq<u8>> {
    Seq::new(v@.len(), |i: int| v@[i]@)
}

fn line_matches_urc(prefixes: &Vec<Vec<u8>>, line: &[u8]) -> (b: bool)
    ensures
        b == matches_urc(prefix_views(*prefixes), line@),
{
    let mut k: usize = 0;
    while k < prefixes.len()
        invariant
            0 <= k <= prefixes@.len(),
            forall|j: int| 0 <= j < k ==> !starts_with(line@, #[trigger] prefix_views(*prefixes)[j]),
        decreases prefixes@.len() - k,
    {
        if slice_starts_with(line, prefixes[k].as_slice()) {
            proof {
                assert(starts_with(line@, prefix_views(*prefixes)[k as int]));
            }
            return true;
        }
        k = k + 1;
    }
    false
}

/// The ingress manager: the line buffer, the response accumulation buffer,
/// the classification state, and the registered URC prefixes.
pub struct IngressManager {
    line: Vec<u8>,
    block: Vec<u8>,
    state: IngressState,
    urc_prefixes: Vec<Vec<u8>>,
}

impl IngressManager {
    /// The abstract state.
    pub closed spec fn model(&self) -> IngressModel {
        IngressModel { state: self.state, line: self.line@, block: self.block@ }
    }

    /// The registered URC prefixes.
    pub closed spec fn spec_prefixes(&self) -> Seq<Seq<u8>> {
        prefix_views(self.urc_prefixes)
    }

    /// Both buffers stay within their fixed capacity.
    pub open spec fn wf(&self) -> bool {
        self.model().line.len() <= BUF_CAPACITY && self.model().block.len() <= BUF_CAPACITY
    }

    pub fn new(urc_prefixes: Vec<Vec<u8>>) -> (m: Self)
        ensures
            m.model() == (IngressModel {
                state: IngressState::Idle,
                line: Seq::<u8>::empty(),
                block: Seq::<u8>::empty(),
            }),
            m.spec_prefixes() == prefix_views(urc_prefixes),
            m.wf(),
    {
        IngressManager { line: Vec::new(), block: Vec::new(), state: IngressState::Idle, urc_prefixes }
    }

    /// Reacts to a control message from the client: `Reset` discards all
    /// in-flight parse state; `ForceReceiveState` enters the receiving
    /// state without having observed a command write.
    pub fn handle_control(&mut self, c: Command)
        ensures
            final(self).spec_prefixes() == old(self).spec_prefixes(),
            old(self).wf() ==> final(self).wf(),
            c == Command::Reset ==> final(self).model() == (IngressModel {
                state: IngressState::Idle,
                line: Seq::<u8>::empty(),
                block: Seq::<u8>::empty(),
            }),
            c == Command::ForceReceiveState ==> final(self).model() == (IngressModel {
                state: IngressState::ReceivingResponse,
                ..old(self).model()
            }),
    {
        match c {
            Command::Reset => {
                self.line.clear();
                self.block.clear();
                self.state = IngressState::Idle;
            },
            Command::ForceReceiveState => {
                self.state = IngressState::ReceivingResponse;
            },
        }
    }

    /// Consumes one received byte: appends it to the line buffer or, on a
    /// line terminator, classifies the completed line. Returns the entry
    /// to hand to its channel, if the byte completed one.
    pub fn process_byte(&mut self, b: u8) -> (r: Option<IngressItem>)
        requires
            old(self).wf(),
        ensures
            final(self).wf(),
            final(self).spec_prefixes() == old(self).spec_prefixes(),
            ({
                let (m2, item) = spec_step(old(self).model(), old(self).spec_prefixes(), b);
                final(self).model() == m2 && opt_item_view(r) == item
            }),
    {
        if b != LF {
            if self.line.len() < BUF_CAPACITY {
                self.line.push(b);
                None
            } else {
                self.line.clear();
                self.block.clear();
                let was_receiving = self.state == IngressState::ReceivingResponse;
                self.state = IngressState::Idle;
                if was_receiving {
                    Some(IngressItem::Response(Err(InternalError::Overflow)))
                } else {
                    None
                }
            }
        } else {
            if self.line.len() > 0 && self.line[self.line.len() - 1] == CR {
                let _ = self.line.pop();
            }
            proof {
                assert(self.line@ == strip_cr(old(self).model().line));
            }
            let mut line: Vec<u8> = Vec::new();
            core::mem::swap(&mut line, &mut self.line);
            if line.len() == 0 {
                return None;
            }
            let receiving = self.state == IngressState::ReceivingResponse;
            if receiving && line.len() == 2 && line[0] == 79 && line[1] == 75 {
                proof {
                    assert(line@ =~= seq![79u8, 75]);
                }
                let mut block: Vec<u8> = Vec::new();
                core::mem::swap(&mut block, &mut self.block);
                self.state = IngressState::Idle;
                return Some(IngressItem::Response(Ok(block)));
            }
            if receiving && line.len() == 5 && line[0] == 69 && line[1] == 82 && line[2] == 82
                && line[3] == 79 && line[4] == 82 {
                proof {
                    assert(line@ =~= seq![69u8, 82, 82, 79, 82]);
                }
                let mut block: Vec<u8> = Vec::new();
                core::mem::swap(&mut block, &mut self.block);
                self.state = IngressState::Idle;
                return Some(IngressItem::Response(Err(InternalError::Error(block))));
            }
            proof {
                if self.state == IngressState::ReceivingResponse {
                    assert(!is_ok_line(line@) && !is_error_line(line@)) by {
                        if is_ok_line(line@) {
                            assert(line@[0] == 79 && line@[1] == 75 && line@.len() == 2);
                        }
                        if is_error_line(line@) {
                            assert(line@.len() == 5);
                        }
                    }
                }
            }
            if line_matches_urc(&self.urc_prefixes, line.as_slice()) {
                return Some(IngressItem::Urc(line));
            }
            if line.len() >= 2 && line[0] == 65 && line[1] == 84 {
                self.block.clear();
                self.state = IngressState::ReceivingResponse;
                return None;
            }
            if receiving {
                if self.block.len() == 0 {
                    self.block = line;
                    return None;
                }
                if self.block.len() + 2 + line.len() <= BUF_CAPACITY {
                    self.block.push(CR);
                    self.block.push(LF);
                    self.block.append(&mut line);
                    proof {
                        assert(self.block@ =~= old(self).model().block + seq![CR, LF] + strip_cr(
                            old(self).model().line,
                        ));
                    }
                    return None;
                }
                self.block.clear();
                self.state = IngressState::Idle;
                return Some(IngressItem::Response(Err(InternalError::Overflow)));
            }
            None
        }
    }
}


impl IngressManager {
    /// Consumes a whole received chunk, byte by byte, collecting every
    /// entry the chunk completes, in classification order.
    pub fn process_bytes(&mut self, bytes: &[u8]) -> (items: Vec<IngressItem>)
        requires
            old(self).wf(),
        ensures
            final(self).wf(),
            final(self).spec_prefixes() == old(self).spec_prefixes(),
            ({
                let run = spec_run(old(self).model(), old(self).spec_prefixes(), bytes@);
                &&& final(self).model() == run.0
                &&& items@.len() == run.1.len()
                &&& forall|k: int| 0 <= k < run.1.len() ==> (#[trigger] items@[k])@ == run.1[k]
            }),
    {
        let ghost p = self.spec_prefixes();
        let ghost full = spec_run(self.model(), p, bytes@);
        let mut items: Vec<IngressItem> = Vec::new();
        let ghost mut emitted: Seq<IngressItemView> = Seq::empty();
        let mut i: usize = 0;
        proof {
            assert(bytes@.subrange(0, bytes@.len() as int) =~= bytes@);
        }
        while i < bytes.len()
            invariant
                0 <= i <= bytes@.len(),
                self.wf(),
                self.spec_prefixes() == p,
                items@.len() == emitted.len(),
                forall|k: int| 0 <= k < emitted.len() ==> (#[trigger] items@[k])@ == emitted[k],
                ({
                    let rest = spec_run(self.model(), p, bytes@.subrange(i as int, bytes@.len() as int));
                    full.0 == rest.0 && full.1 == emitted + rest.1
                }),
            decreases bytes@.len() - i,
        {
            let ghost m_before = self.model();
            let ghost tail = bytes@.subrange(i as int, bytes@.len() as int);
            proof {
                assert(tail.len() > 0);
                assert(tail[0] == bytes@[i as int]);
                assert(tail.drop_first() =~= bytes@.subrange(i + 1, bytes@.len() as int));
            }
            let r = self.process_byte(bytes[i]);
            match r {
                Some(item) => {
                    let ghost iv = item@;
                    items.push(item);
                    proof {
                        let rest = spec_run(
                            self.model(),
                            p,
                            bytes@.subrange(i + 1, bytes@.len() as int),
                        );
                        assert((emitted + (seq![iv] + rest.1)) =~= (emitted.push(iv) + rest.1));
                        emitted = emitted.push(iv);
                    }
                },
                None => {
                },
            }
            i = i + 1;
        }
        proof {
            assert(bytes@.subrange(bytes@.len() as int, bytes@.len() as int)
                =~= Seq::<u8>::empty());
            assert(emitted + Seq::<IngressItemView>::empty() =~= emitted);
        }
        items
    }
}

} // verus!
