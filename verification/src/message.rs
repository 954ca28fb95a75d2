//! Message segments and message chains.
use vstd::prelude::*;

use crate::json::{Json, JsonView};
use crate::text::{owned, push_str, trim, trim_seq};

verus! {

/// One part of a message.
#[derive(Debug)]
pub enum MessageSegment {
    Text { text: String },
    Image { image_url: String, width: u32, height: u32 },
    Audio { audio_url: String, duration_ms: u64 },
    CustomNode { desc: String, content: Json },
}

/// The mathematical value of a segment.
pub enum SegmentView {
    Text(Seq<char>),
    Image(Seq<char>, nat, nat),
    Audio(Seq<char>, nat),
    CustomNode(Seq<char>, JsonView),
}

impl View for MessageSegment {
    type V = SegmentView;

    open spec fn view(&self) -> SegmentView {
        match self {
            MessageSegment::Text { text } => SegmentView::Text(text@),
            MessageSegment::Image { image_url, width, height } => SegmentView::Image(
                image_url@,
                *width as nat,
                *height as nat,
            ),
            MessageSegment::Audio { audio_url, duration_ms } => SegmentView::Audio(
                audio_url@,
                *duration_ms as nat,
            ),
            MessageSegment::CustomNode { desc, content } => SegmentView::CustomNode(
                desc@,
                content@,
            ),
        }
    }
}

/// The label of a segment: its kind in words, or a custom node's own description.
pub open spec fn desc_spec(s: SegmentView) -> Seq<char> {
    match s {
        SegmentView::Text(_) => "文本"@,
        SegmentView::Image(..) => "图片"@,
        SegmentView::Audio(..) => "音频"@,
        SegmentView::CustomNode(d, _) => if d.len() == 0 {
            "节点消息"@
        } else {
            d
        },
    }
}

/// A text segment's text; any other segment as its label in square brackets.
pub open spec fn segment_summary(s: SegmentView) -> Seq<char> {
    match s {
        SegmentView::Text(t) => t,
        _ => "["@ + desc_spec(s) + "]"@,
    }
}

/// The texts of the text segments, joined with nothing between them.
pub open spec fn plain_text_spec(segs: Seq<SegmentView>) -> Seq<char>
    decreases segs.len(),
{
    if segs.len() == 0 {
        Seq::empty()
    } else {
        plain_text_spec(segs.drop_last()) + match segs.last() {
            SegmentView::Text(t) => t,
            _ => Seq::empty(),
        }
    }
}

/// Each segment's summary followed by a space, all joined.
pub open spec fn summary_pieces(segs: Seq<SegmentView>) -> Seq<char>
    decreases segs.len(),
{
    if segs.len() == 0 {
        Seq::empty()
    } else {
        summary_pieces(segs.drop_last()) + segment_summary(segs.last()) + " "@
    }
}

/// The summary of a chain: a fixed marker when empty, else the pieces, trimmed.
pub open spec fn chain_summary(segs: Seq<SegmentView>) -> Seq<char> {
    if segs.len() == 0 {
        "(空消息)"@
    } else {
        trim_seq(summary_pieces(segs))
    }
}

pub open spec fn is_image(s: SegmentView) -> bool {
    s is Image
}

impl MessageSegment {
    /// A text segment.
    pub fn text(text: &str) -> (r: MessageSegment)
        ensures
            r@ == SegmentView::Text(text@),
    {
        MessageSegment::Text { text: owned(text) }
    }

    /// An image segment of unknown size.
    pub fn image(image_url: &str) -> (r: MessageSegment)
        ensures
            r@ == SegmentView::Image(image_url@, 0, 0),
    {
        MessageSegment::Image { image_url: owned(image_url), width: 0, height: 0 }
    }

    /// The label of the segment.
    pub fn desc(&self) -> (r: &str)
        ensures
            r@ == desc_spec(self@),
    {
        match self {
            MessageSegment::Text { .. } => "文本",
            MessageSegment::Image { .. } => "图片",
            MessageSegment::Audio { .. } => "音频",
            MessageSegment::CustomNode { desc, .. } => {
                if desc.as_str().unicode_len() == 0 {
                    "节点消息"
                } else {
                    desc.as_str()
                }
            },
        }
    }

    /// The text of a text segment, else `[label]`.
    pub fn summary(&self) -> (r: String)
        ensures
            r@ == segment_summary(self@),
    {
        match self {
            MessageSegment::Text { text } => text.clone(),
            _ => {
                let mut out = owned("[");
                push_str(&mut out, self.desc());
                push_str(&mut out, "]");
                out
            },
        }
    }

    /// A copy of the segment with the same value.
    pub fn duplicate(&self) -> (r: MessageSegment)
        ensures
            r@ == self@,
    {
        match self {
            MessageSegment::Text { text } => MessageSegment::Text { text: text.clone() },
            MessageSegment::Image { image_url, width, height } => MessageSegment::Image {
                image_url: image_url.clone(),
                width: *width,
                height: *height,
            },
            MessageSegment::Audio { audio_url, duration_ms } => MessageSegment::Audio {
                audio_url: audio_url.clone(),
                duration_ms: *duration_ms,
            },
            MessageSegment::CustomNode { desc, content } => MessageSegment::CustomNode {
                desc: desc.clone(),
                content: content.duplicate(),
            },
        }
    }

    pub fn is_image(&self) -> (r: bool)
        ensures
            r == is_image(self@),
    {
        match self {
            MessageSegment::Image { .. } => true,
            _ => false,
        }
    }
}

/// A message: its segments in order.
#[derive(Debug)]
pub struct MessageChain {
    segments: Vec<MessageSegment>,
}

/// What `MessageChain::append` takes: one segment or a whole chain.
pub enum MessageChainItem {
    Segment(MessageSegment),
    Chain(MessageChain),
}

pub open spec fn seg_views(s: Seq<MessageSegment>) -> Seq<SegmentView> {
    s.map_values(|x: MessageSegment| x@)
}

impl View for MessageChain {
    type V = Seq<SegmentView>;

    closed spec fn view(&self) -> Seq<SegmentView> {
        seg_views(self.segments@)
    }
}

impl MessageChainItem {
    pub open spec fn segs(&self) -> Seq<SegmentView> {
        match self {
            MessageChainItem::Segment(s) => seq![s@],
            MessageChainItem::Chain(c) => c@,
        }
    }
}

impl MessageChain {
    /// An empty chain.
    pub fn new() -> (r: MessageChain)
        ensures
            r@ == Seq::<SegmentView>::empty(),
    {
        MessageChain { segments: Vec::new() }
    }

    /// A chain of one segment.
    pub fn from_segment(seg: MessageSegment) -> (r: MessageChain)
        ensures
            r@ == seq![seg@],
    {
        let mut segments = Vec::new();
        segments.push(seg);
        let r = MessageChain { segments };
        assert(r@ =~= seq![seg@]);
        r
    }

    /// A chain of the given segments.
    pub fn from_segments(segments: Vec<MessageSegment>) -> (r: MessageChain)
        ensures
            r@ == seg_views(segments@),
    {
        MessageChain { segments }
    }

    /// A chain of one text segment.
    pub fn from_text(text: &str) -> (r: MessageChain)
        ensures
            r@ == seq![SegmentView::Text(text@)],
    {
        MessageChain::from_segment(MessageSegment::text(text))
    }

    /// Appends a segment, or all segments of a chain.
    pub fn append(&mut self, item: MessageChainItem)
        ensures
            final(self)@ == old(self)@ + item.segs(),
    {
        match item {
            MessageChainItem::Segment(seg) => {
                self.segments.push(seg);
                assert(self@ =~= old(self)@ + item.segs());
            },
            MessageChainItem::Chain(chain) => {
                let mut other = chain.segments;
                self.segments.append(&mut other);
                assert(self@ =~= old(self)@ + item.segs());
            },
        }
    }

    /// Appends each item in turn.
    pub fn extend(&mut self, items: Vec<MessageChainItem>)
        ensures
            final(self)@ == old(self)@ + items_segs(items@),
    {
        let ghost start = self@;
        let ghost all = items@;
        for item in it: items
            invariant
                it.seq() == all,
                self@ == start + items_segs(all.take(it.index() as int)),
        {
            proof {
                assert(all.take(it.index() + 1).drop_last() =~= all.take(it.index() as int));
            }
            self.append(item);
        }
        assert(all.take(all.len() as int) =~= all);
    }

    /// The segments, in order.
    pub fn segments(&self) -> (r: &[MessageSegment])
        ensures
            seg_views(r@) == self@,
    {
        self.segments.as_slice()
    }

    pub fn is_empty(&self) -> (r: bool)
        ensures
            r == (self@.len() == 0),
    {
        self.segments.len() == 0
    }

    /// The number of segments.
    pub fn len(&self) -> (r: usize)
        ensures
            r == self@.len(),
    {
        self.segments.len()
    }

    /// The texts of the text segments, joined.
    pub fn plain_text(&self) -> (r: String)
        ensures
            r@ == plain_text_spec(self@),
    {
        let mut out = String::new();
        let mut i: usize = 0;
        while i < self.segments.len()
            invariant
                i <= self.segments.len(),
                out@ == plain_text_spec(self@.take(i as int)),
            decreases self.segments.len() - i,
        {
            assert(self@.take(i + 1).drop_last() =~= self@.take(i as int));
            match &self.segments[i] {
                MessageSegment::Text { text } => push_str(&mut out, text.as_str()),
                _ => {
                    assert(out@ + Seq::<char>::empty() =~= out@);
                },
            }
            i += 1;
        }
        assert(self@.take(self@.len() as int) =~= self@);
        out
    }

    /// A one-line summary of the chain.
    pub fn summary(&self) -> (r: String)
        ensures
            r@ == chain_summary(self@),
    {
        if self.segments.len() == 0 {
            return owned("(空消息)");
        }
        let mut out = String::new();
        let mut i: usize = 0;
        while i < self.segments.len()
            invariant
                i <= self.segments.len(),
                out@ == summary_pieces(self@.take(i as int)),
            decreases self.segments.len() - i,
        {
            assert(self@.take(i + 1).drop_last() =~= self@.take(i as int));
            let piece = self.segments[i].summary();
            push_str(&mut out, piece.as_str());
            push_str(&mut out, " ");
            i += 1;
        }
        assert(self@.take(self@.len() as int) =~= self@);
        trim(out.as_str())
    }

    /// Whether any segment is an image.
    pub fn has_image(&self) -> (r: bool)
        ensures
            r == (exists|i: int| 0 <= i < self@.len() && is_image(#[trigger] self@[i])),
    {
        let mut i: usize = 0;
        while i < self.segments.len()
            invariant
                i <= self.segments.len(),
                forall|j: int| 0 <= j < i ==> !is_image(#[trigger] self@[j]),
            decreases self.segments.len() - i,
        {
            assert(self@[i as int] == self.segments@[i as int]@);
            if self.segments[i].is_image() {
                return true;
            }
            i += 1;
        }
        false
    }

    /// A copy of the chain with the same value.
    pub fn duplicate(&self) -> (r: MessageChain)
        ensures
            r@ == self@,
    {
        let mut out: Vec<MessageSegment> = Vec::new();
        let mut i: usize = 0;
        while i < self.segments.len()
            invariant
                i <= self.segments.len(),
                seg_views(out@) == self@.take(i as int),
            decreases self.segments.len() - i,
        {
            let s = self.segments[i].duplicate();
            let ghost prev = out@;
            out.push(s);
            assert(self@[i as int] == self.segments@[i as int]@);
            assert(seg_views(out@) =~= seg_views(prev).push(s@));
            assert(self@.take(i + 1) =~= self@.take(i as int).push(self@[i as int]));
            i += 1;
        }
        assert(self@.take(self@.len() as int) =~= self@);
        MessageChain { segments: out }
    }
}

/// The segments that appending each item in turn adds.
pub open spec fn items_segs(items: Seq<MessageChainItem>) -> Seq<SegmentView>
    decreases items.len(),
{
    if items.len() == 0 {
        Seq::empty()
    } else {
        items_segs(items.drop_last()) + items.last().segs()
    }
}

impl Default for MessageChain {
    fn default() -> (r: MessageChain)
        ensures
            r@ == Seq::<SegmentView>::empty(),
    {
        MessageChain::new()
    }
}


impl From<MessageSegment> for MessageChain {
    /// A chain of the one segment.
    fn from(seg: MessageSegment) -> (r: MessageChain)
        ensures
            r@ == seq![seg@],
    {
        MessageChain::from_segment(seg)
    }
}

/// The chain that `from` returns is stated by the impl's own `ensures`, over the chain's view.
impl vstd::std_specs::convert::FromSpecImpl<MessageSegment> for MessageChain {
    open spec fn obeys_from_spec() -> bool {
        false
    }

    open spec fn from_spec(v: MessageSegment) -> MessageChain {
        arbitrary()
    }
}

impl From<Vec<MessageSegment>> for MessageChain {
    /// The chain of these segments.
    fn from(segments: Vec<MessageSegment>) -> (r: MessageChain)
        ensures
            r@ == seg_views(segments@),
    {
        MessageChain { segments }
    }
}

impl vstd::std_specs::convert::FromSpecImpl<Vec<MessageSegment>> for MessageChain {
    open spec fn obeys_from_spec() -> bool {
        true
    }

    closed spec fn from_spec(v: Vec<MessageSegment>) -> MessageChain {
        MessageChain { segments: v }
    }
}

impl From<String> for MessageChain {
    /// A chain of one text segment.
    fn from(text: String) -> (r: MessageChain)
        ensures
            r@ == seq![SegmentView::Text(text@)],
    {
        MessageChain::from_segment(MessageSegment::Text { text })
    }
}

/// The chain that `from` returns is stated by the impl's own `ensures`, over the chain's view.
impl vstd::std_specs::convert::FromSpecImpl<String> for MessageChain {
    open spec fn obeys_from_spec() -> bool {
        false
    }

    open spec fn from_spec(v: String) -> MessageChain {
        arbitrary()
    }
}

impl From<&str> for MessageChain {
    /// A chain of one text segment.
    fn from(text: &str) -> (r: MessageChain)
        ensures
            r@ == seq![SegmentView::Text(text@)],
    {
        MessageChain::from_text(text)
    }
}

/// The chain that `from` returns is stated by the impl's own `ensures`, over the chain's view.
impl vstd::std_specs::convert::FromSpecImpl<&str> for MessageChain {
    open spec fn obeys_from_spec() -> bool {
        false
    }

    open spec fn from_spec(v: &str) -> MessageChain {
        arbitrary()
    }
}

impl From<MessageSegment> for MessageChainItem {
    fn from(seg: MessageSegment) -> (r: MessageChainItem) {
        MessageChainItem::Segment(seg)
    }
}

impl vstd::std_specs::convert::FromSpecImpl<MessageSegment> for MessageChainItem {
    open spec fn obeys_from_spec() -> bool {
        true
    }

    open spec fn from_spec(v: MessageSegment) -> MessageChainItem {
        MessageChainItem::Segment(v)
    }
}

impl From<MessageChain> for MessageChainItem {
    fn from(chain: MessageChain) -> (r: MessageChainItem) {
        MessageChainItem::Chain(chain)
    }
}

impl vstd::std_specs::convert::FromSpecImpl<MessageChain> for MessageChainItem {
    open spec fn obeys_from_spec() -> bool {
        true
    }

    open spec fn from_spec(v: MessageChain) -> MessageChainItem {
        MessageChainItem::Chain(v)
    }
}

impl From<String> for MessageChainItem {
    fn from(text: String) -> (r: MessageChainItem) {
        MessageChainItem::Segment(MessageSegment::Text { text })
    }
}

impl vstd::std_specs::convert::FromSpecImpl<String> for MessageChainItem {
    open spec fn obeys_from_spec() -> bool {
        true
    }

    open spec fn from_spec(v: String) -> MessageChainItem {
        MessageChainItem::Segment(MessageSegment::Text { text: v })
    }
}

impl From<&str> for MessageChainItem {
    /// A text segment.
    fn from(text: &str) -> (r: MessageChainItem)
        ensures
            r.segs() == seq![SegmentView::Text(text@)],
    {
        MessageChainItem::Segment(MessageSegment::text(text))
    }
}

/// The item that `from` returns is stated by the impl's own `ensures`, over its segments.
impl vstd::std_specs::convert::FromSpecImpl<&str> for MessageChainItem {
    open spec fn obeys_from_spec() -> bool {
        false
    }

    open spec fn from_spec(v: &str) -> MessageChainItem {
        arbitrary()
    }
}

} // verus!
