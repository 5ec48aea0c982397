//! Workshop descriptions: the supported CommonMark subset rendered as Steam
//! BBCode, from the events of the `pulldown-cmark` parser.

use vstd::prelude::*;

use pulldown_cmark::{Event, Parser, Tag, TagEnd};

use crate::error::{join_lines, Error};
use crate::text::{
    all_white, chars_of, count_matches, decimal, find_seq, fmt_u128, is_blank, is_control, line_spans, lines,
    push_char, push_str, string_from_range, trim, trim_end, trim_end_string,
};
use crate::workshop_meta::description_marker;

verus! {

/// The opening of a container, reduced to what the renderer reads.
pub enum MdTag<T> {
    /// A paragraph.
    Paragraph,
    /// A heading of level 1 to 6.
    Heading(u8),
    /// A list; ordered lists carry their first number.
    List(Option<u64>),
    /// A list item.
    Item,
    /// Emphasis.
    Emphasis,
    /// Strong emphasis.
    Strong,
    /// A link to its destination URL.
    Link(T),
    /// A code block.
    CodeBlock,
    /// Any other container.
    Other,
}

/// The close of a container, reduced to what the renderer reads.
pub enum MdTagEnd {
    /// A paragraph.
    Paragraph,
    /// A heading of level 1 to 6.
    Heading(u8),
    /// A list: whether it is ordered.
    List(bool),
    /// A list item.
    Item,
    /// Emphasis.
    Emphasis,
    /// Strong emphasis.
    Strong,
    /// A link.
    Link,
    /// A code block.
    CodeBlock,
    /// Any other container.
    Other,
}

/// One CommonMark parser event, with the text that the renderer reads.
pub enum MdEvent<T> {
    /// Start of a container.
    Start(MdTag<T>),
    /// End of a container.
    End(MdTagEnd),
    /// Text.
    Text(T),
    /// Inline code.
    Code(T),
    /// Inline math.
    InlineMath,
    /// Display math.
    DisplayMath,
    /// Block HTML.
    Html,
    /// Inline HTML.
    InlineHtml,
    /// A footnote reference.
    FootnoteReference,
    /// A soft line break.
    SoftBreak,
    /// A hard line break.
    HardBreak,
    /// A thematic break.
    Rule,
    /// A task list marker.
    TaskListMarker(bool),
}

/// A parser event with its text as plain characters.
pub open spec fn event_view(e: MdEvent<String>) -> MdEvent<Seq<char>> {
    match e {
        MdEvent::Start(t) => MdEvent::Start(
            match t {
                MdTag::Paragraph => MdTag::Paragraph,
                MdTag::Heading(l) => MdTag::Heading(l),
                MdTag::List(n) => MdTag::List(n),
                MdTag::Item => MdTag::Item,
                MdTag::Emphasis => MdTag::Emphasis,
                MdTag::Strong => MdTag::Strong,
                MdTag::Link(u) => MdTag::Link(u@),
                MdTag::CodeBlock => MdTag::CodeBlock,
                MdTag::Other => MdTag::Other,
            },
        ),
        MdEvent::End(t) => MdEvent::End(t),
        MdEvent::Text(s) => MdEvent::Text(s@),
        MdEvent::Code(s) => MdEvent::Code(s@),
        MdEvent::InlineMath => MdEvent::InlineMath,
        MdEvent::DisplayMath => MdEvent::DisplayMath,
        MdEvent::Html => MdEvent::Html,
        MdEvent::InlineHtml => MdEvent::InlineHtml,
        MdEvent::FootnoteReference => MdEvent::FootnoteReference,
        MdEvent::SoftBreak => MdEvent::SoftBreak,
        MdEvent::HardBreak => MdEvent::HardBreak,
        MdEvent::Rule => MdEvent::Rule,
        MdEvent::TaskListMarker(b) => MdEvent::TaskListMarker(b),
    }
}

/// Parser events as plain values.
pub open spec fn events_view(es: Seq<MdEvent<String>>) -> Seq<MdEvent<Seq<char>>> {
    es.map_values(|e: MdEvent<String>| event_view(e))
}

/// The events that `pulldown_cmark::Parser::new` yields for a document,
/// with default options.
pub uninterp spec fn markdown_events(markdown: Seq<char>) -> Seq<MdEvent<Seq<char>>>;

/// `Event` of the CommonMark parser, declared for verified code.
#[verifier::external_type_specification]
#[verifier::external_body]
pub struct ExMdEvent<'a>(Event<'a>);

/// `Tag` of the CommonMark parser, declared for verified code.
#[verifier::external_type_specification]
#[verifier::external_body]
pub struct ExMdTag<'a>(Tag<'a>);

/// `TagEnd` of the CommonMark parser, declared for verified code.
#[verifier::external_type_specification]
#[verifier::external_body]
pub struct ExMdTagEnd(TagEnd);

/// Converts the opening of a `pulldown_cmark` container, one variant for
/// one, the containers that the renderer does not read to `Other`.
#[verifier::external_body]
fn tag_of(t: Tag<'_>) -> MdTag<String> {
    match t {
        Tag::Paragraph => MdTag::Paragraph,
        Tag::Heading { level, .. } => MdTag::Heading(level as u8),
        Tag::List(n) => MdTag::List(n),
        Tag::Item => MdTag::Item,
        Tag::Emphasis => MdTag::Emphasis,
        Tag::Strong => MdTag::Strong,
        Tag::Link { dest_url, .. } => MdTag::Link(dest_url.to_string()),
        Tag::CodeBlock(_) => MdTag::CodeBlock,
        _ => MdTag::Other,
    }
}

/// Converts the close of a `pulldown_cmark` container, one variant for one,
/// the containers that the renderer does not read to `Other`.
#[verifier::external_body]
fn tag_end_of(t: TagEnd) -> MdTagEnd {
    match t {
        TagEnd::Paragraph => MdTagEnd::Paragraph,
        TagEnd::Heading(level) => MdTagEnd::Heading(level as u8),
        TagEnd::List(ordered) => MdTagEnd::List(ordered),
        TagEnd::Item => MdTagEnd::Item,
        TagEnd::Emphasis => MdTagEnd::Emphasis,
        TagEnd::Strong => MdTagEnd::Strong,
        TagEnd::Link => MdTagEnd::Link,
        TagEnd::CodeBlock => MdTagEnd::CodeBlock,
        _ => MdTagEnd::Other,
    }
}

/// Converts one `pulldown_cmark` event, one variant for one.
#[verifier::external_body]
fn event_of(e: Event<'_>) -> MdEvent<String> {
    match e {
        Event::Start(t) => MdEvent::Start(tag_of(t)),
        Event::End(t) => MdEvent::End(tag_end_of(t)),
        Event::Text(s) => MdEvent::Text(s.to_string()),
        Event::Code(s) => MdEvent::Code(s.to_string()),
        Event::InlineMath(_) => MdEvent::InlineMath,
        Event::DisplayMath(_) => MdEvent::DisplayMath,
        Event::Html(_) => MdEvent::Html,
        Event::InlineHtml(_) => MdEvent::InlineHtml,
        Event::FootnoteReference(_) => MdEvent::FootnoteReference,
        Event::SoftBreak => MdEvent::SoftBreak,
        Event::HardBreak => MdEvent::HardBreak,
        Event::Rule => MdEvent::Rule,
        Event::TaskListMarker(b) => MdEvent::TaskListMarker(b),
    }
}

/// Parses a document with `pulldown_cmark::Parser::new`. The claim: the
/// converted events are the named parser events of the document.
#[verifier::external_body]
fn parse_markdown(markdown: &str) -> (r: Vec<MdEvent<String>>)
    ensures
        events_view(r@) == markdown_events(markdown@),
{
    Parser::new(markdown).map(event_of).collect()
}

/// Renderer state as plain values: output, open lists, inside an item.
pub type RenderView = (Seq<char>, nat, bool);

/// Whether `s` ends with two line breaks.
pub open spec fn ends_with_blank_line(s: Seq<char>) -> bool {
    s.len() >= 2 && s[s.len() - 1] == '\n' && s[s.len() - 2] == '\n'
}

/// `out` followed by whatever makes the next block begin after exactly one
/// blank line.
pub open spec fn separated(out: Seq<char>) -> Seq<char> {
    if out.len() == 0 || ends_with_blank_line(out) {
        out
    } else if out.last() == '\n' {
        out.push('\n')
    } else {
        out + seq!['\n', '\n']
    }
}

/// Text with its square brackets written as character references, so that
/// it can neither open nor close a BBCode tag.
pub open spec fn escaped(t: Seq<char>) -> Seq<char>
    decreases t.len(),
{
    if t.len() == 0 {
        seq![]
    } else if t.last() == '[' {
        escaped(t.drop_last()) + "&#91;"@
    } else if t.last() == ']' {
        escaped(t.drop_last()) + "&#93;"@
    } else {
        escaped(t.drop_last()).push(t.last())
    }
}

/// Error for headings deeper than level 3.
pub open spec fn heading_error() -> Seq<char> {
    "only heading levels 1 through 3 are supported"@
}

/// The BBCode tag of a heading level, opening or closing.
pub open spec fn heading_tag(level: u8, open: bool) -> Result<Seq<char>, Seq<char>> {
    if level == 1 {
        Ok(if open { "[h1]"@ } else { "[/h1]"@ })
    } else if level == 2 {
        Ok(if open { "[h2]"@ } else { "[/h2]"@ })
    } else if level == 3 {
        Ok(if open { "[h3]"@ } else { "[/h3]"@ })
    } else {
        Err(heading_error())
    }
}

/// Whether `s` starts with `p`.
pub open spec fn starts_with(s: Seq<char>, p: Seq<char>) -> bool {
    p.len() <= s.len() && s.take(p.len() as int) == p
}

/// Whether a link destination is a web URL that cannot break out of a
/// BBCode `url` tag.
pub open spec fn safe_url(u: Seq<char>) -> bool {
    &&& (starts_with(u, "https://"@) || starts_with(u, "http://"@))
    &&& forall|i: int| 0 <= i < u.len() ==> !is_control(#[trigger] u[i]) && u[i] != ']'
}

/// Error for ordered lists.
pub open spec fn ordered_error() -> Seq<char> {
    "ordered lists are not supported; use `-` bullets"@
}

/// Error for other containers.
pub open spec fn block_error() -> Seq<char> {
    "unsupported Markdown block in Workshop description"@
}

/// The state after opening a container.
pub open spec fn start_step(s: RenderView, t: MdTag<Seq<char>>) -> Result<RenderView, Seq<char>> {
    let (out, depth, in_item) = s;
    match t {
        MdTag::Paragraph => Ok((if in_item { out } else { separated(out) }, depth, in_item)),
        MdTag::Heading(l) => match heading_tag(l, true) {
            Ok(h) => Ok((separated(out) + h, depth, in_item)),
            Err(e) => Err(e),
        },
        MdTag::List(None) => if depth != 0 {
            Err("nested lists are not supported"@)
        } else {
            Ok((separated(out) + "[list]\n"@, depth + 1, in_item))
        },
        MdTag::List(Some(_)) => Err(ordered_error()),
        MdTag::Item => Ok((out + "[*]"@, depth, true)),
        MdTag::Emphasis => Ok((out + "[i]"@, depth, in_item)),
        MdTag::Strong => Ok((out + "[b]"@, depth, in_item)),
        MdTag::Link(u) => if safe_url(u) {
            Ok((out + "[url="@ + u + "]"@, depth, in_item))
        } else {
            Err("unsupported or unsafe link URL: "@ + u)
        },
        MdTag::CodeBlock => Ok((separated(out) + "[code]\n"@, depth, in_item)),
        MdTag::Other => Err(block_error()),
    }
}

/// The state after closing a container.
pub open spec fn end_step(s: RenderView, t: MdTagEnd) -> Result<RenderView, Seq<char>> {
    let (out, depth, in_item) = s;
    match t {
        MdTagEnd::Paragraph => Ok((if in_item { out } else { out + "\n\n"@ }, depth, in_item)),
        MdTagEnd::Heading(l) => match heading_tag(l, false) {
            Ok(h) => Ok((out + h + "\n\n"@, depth, in_item)),
            Err(e) => Err(e),
        },
        MdTagEnd::List(false) => Ok((out + "[/list]\n\n"@, if depth == 0 { 0 } else { (depth - 1) as nat }, in_item)),
        MdTagEnd::List(true) => Err(ordered_error()),
        MdTagEnd::Item => Ok((out.push('\n'), depth, false)),
        MdTagEnd::Emphasis => Ok((out + "[/i]"@, depth, in_item)),
        MdTagEnd::Strong => Ok((out + "[/b]"@, depth, in_item)),
        MdTagEnd::Link => Ok((out + "[/url]"@, depth, in_item)),
        MdTagEnd::CodeBlock => Ok((out + "\n[/code]\n\n"@, depth, in_item)),
        MdTagEnd::Other => Err(block_error()),
    }
}

/// The state after one event, or why the event is refused.
pub open spec fn step(s: RenderView, e: MdEvent<Seq<char>>) -> Result<RenderView, Seq<char>> {
    let (out, depth, in_item) = s;
    match e {
        MdEvent::Start(t) => start_step(s, t),
        MdEvent::End(t) => end_step(s, t),
        MdEvent::Text(t) => Ok((out + escaped(t), depth, in_item)),
        MdEvent::Code(t) => Ok((out + "[code]"@ + escaped(t) + "[/code]"@, depth, in_item)),
        MdEvent::SoftBreak => Ok((out.push('\n'), depth, in_item)),
        MdEvent::HardBreak => Ok((out.push('\n'), depth, in_item)),
        MdEvent::Rule => Ok((separated(out) + "[hr][/hr]\n\n"@, depth, in_item)),
        MdEvent::Html => Err("raw HTML is not supported in Workshop descriptions"@),
        MdEvent::InlineHtml => Err("raw HTML is not supported in Workshop descriptions"@),
        _ => Err("unsupported Markdown construct in Workshop description"@),
    }
}

/// The state after a sequence of events from the empty state, or the first
/// refusal.
pub open spec fn run(events: Seq<MdEvent<Seq<char>>>) -> Result<RenderView, Seq<char>>
    decreases events.len(),
{
    if events.len() == 0 {
        Ok((seq![], 0, false))
    } else {
        match run(events.drop_last()) {
            Ok(s) => step(s, events.last()),
            Err(e) => Err(e),
        }
    }
}

/// The BBCode of a sequence of events: the rendered output without
/// trailing whitespace.
pub open spec fn bbcode_of(events: Seq<MdEvent<Seq<char>>>) -> Result<Seq<char>, Seq<char>> {
    match run(events) {
        Ok(s) => Ok(trim_end(s.0)),
        Err(e) => Err(e),
    }
}

/// Text without square brackets is written as it is.
proof fn lemma_plain_text_unescaped(t: Seq<char>)
    requires
        forall|i: int| 0 <= i < t.len() ==> #[trigger] t[i] != '[' && t[i] != ']',
    ensures
        escaped(t) == t,
    decreases t.len(),
{
    if t.len() > 0 {
        let u = t.drop_last();
        assert forall|i: int| 0 <= i < u.len() implies #[trigger] u[i] != '[' && u[i] != ']' by {
            assert(u[i] == t[i]);
        }
        lemma_plain_text_unescaped(u);
        assert(t.last() == t[t.len() - 1]);
        assert(u.push(t.last()) == t);
    }
}

/// A soft line break starts a new output line: after any accepted events,
/// one more soft break appends exactly one newline and keeps the list state.
pub proof fn lemma_soft_break_appends_newline(events: Seq<MdEvent<Seq<char>>>)
    requires
        run(events) is Ok,
    ensures
        run(events.push(MdEvent::SoftBreak)) == Ok::<RenderView, Seq<char>>((
            run(events)->Ok_0.0 + "\n"@,
            run(events)->Ok_0.1,
            run(events)->Ok_0.2,
        )),
{
    assert(events.push(MdEvent::SoftBreak).drop_last() == events);
    assert(run(events)->Ok_0.0.push('\n') == run(events)->Ok_0.0 + "\n"@) by {
        reveal_strlit("\n");
    }
}

/// Two lines of text joined by a soft line break render as the two lines
/// with a newline between them: neither line is lost, and they do not run
/// together.
pub proof fn lemma_soft_break_separates_lines(a: Seq<char>, b: Seq<char>)
    requires
        forall|i: int| 0 <= i < a.len() ==> #[trigger] a[i] != '[' && a[i] != ']',
        forall|i: int| 0 <= i < b.len() ==> #[trigger] b[i] != '[' && b[i] != ']',
    ensures
        run(seq![MdEvent::Text(a), MdEvent::SoftBreak, MdEvent::Text(b)])
            == Ok::<RenderView, Seq<char>>((a + "\n"@ + b, 0nat, false)),
{
    lemma_plain_text_unescaped(a);
    lemma_plain_text_unescaped(b);
    let e1: Seq<MdEvent<Seq<char>>> = seq![MdEvent::Text(a)];
    let e2 = e1.push(MdEvent::SoftBreak);
    let e3 = e2.push(MdEvent::Text(b));
    assert(e1.drop_last() == Seq::<MdEvent<Seq<char>>>::empty());
    assert(e1.len() == 1 && e1.last() == MdEvent::<Seq<char>>::Text(a));
    assert(run(Seq::<MdEvent<Seq<char>>>::empty()) == Ok::<RenderView, Seq<char>>((seq![], 0nat, false)));
    assert(step((seq![], 0nat, false), MdEvent::Text(a)) == Ok::<RenderView, Seq<char>>((seq![] + escaped(a), 0nat, false)));
    assert(run(e1) == Ok::<RenderView, Seq<char>>((seq![] + escaped(a), 0nat, false)));
    assert(seq![] + escaped(a) == a);
    lemma_soft_break_appends_newline(e1);
    assert(e3.drop_last() == e2);
    assert(e3.last() == MdEvent::<Seq<char>>::Text(b));
    assert((a + "\n"@) + escaped(b) == a + "\n"@ + b);
    assert(e3 == seq![MdEvent::Text(a), MdEvent::SoftBreak, MdEvent::Text(b)]);
}

/// Stateful CommonMark-event to BBCode renderer.
pub struct Renderer {
    /// Accumulated BBCode.
    pub output: String,
    /// Number of currently open unordered lists.
    pub list_depth: usize,
    /// Whether content is currently inside a list item.
    pub in_item: bool,
}

impl Renderer {
    /// The state as plain values.
    pub open spec fn view(&self) -> RenderView {
        (self.output@, self.list_depth as nat, self.in_item)
    }

    /// An empty renderer.
    pub fn new() -> (r: Self)
        ensures
            r.view() == (Seq::<char>::empty(), 0nat, false),
    {
        Renderer { output: String::new(), list_depth: 0, in_item: false }
    }

    /// Renders one event, or refuses a construct outside the supported subset.
    pub fn event(&mut self, event: &MdEvent<String>) -> (r: Result<(), String>)
        ensures
            match step(old(self).view(), event_view(*event)) {
                Ok(s) => r is Ok && final(self).view() == s,
                Err(m) => r matches Err(e) && e@ == m,
            },
            final(self).list_depth <= old(self).list_depth + 1,
    {
        match event {
            MdEvent::Start(tag) => self.start(tag),
            MdEvent::End(tag) => self.end(tag),
            MdEvent::Text(text) => {
                self.text(text.as_str());
                Ok(())
            },
            MdEvent::Code(code) => {
                push_str(&mut self.output, "[code]");
                self.text(code.as_str());
                push_str(&mut self.output, "[/code]");
                proof {
                    reveal_strlit("[code]");
                    reveal_strlit("[/code]");
                }
                Ok(())
            },
            MdEvent::SoftBreak => {
                push_char(&mut self.output, '\n');
                Ok(())
            },
            MdEvent::HardBreak => {
                push_char(&mut self.output, '\n');
                Ok(())
            },
            MdEvent::Rule => {
                self.block_separator();
                push_str(&mut self.output, "[hr][/hr]\n\n");
                Ok(())
            },
            MdEvent::Html => Err("raw HTML is not supported in Workshop descriptions".to_owned()),
            MdEvent::InlineHtml => Err("raw HTML is not supported in Workshop descriptions".to_owned()),
            MdEvent::InlineMath => Err("unsupported Markdown construct in Workshop description".to_owned()),
            MdEvent::DisplayMath => Err("unsupported Markdown construct in Workshop description".to_owned()),
            MdEvent::FootnoteReference => Err("unsupported Markdown construct in Workshop description".to_owned()),
            MdEvent::TaskListMarker(_) => Err("unsupported Markdown construct in Workshop description".to_owned()),
        }
    }

    /// Renders the opening of a supported container.
    pub fn start(&mut self, tag: &MdTag<String>) -> (r: Result<(), String>)
        ensures
            match start_step(old(self).view(), event_view(MdEvent::Start(*tag))->Start_0) {
                Ok(s) => r is Ok && final(self).view() == s,
                Err(m) => r matches Err(e) && e@ == m,
            },
            final(self).list_depth <= old(self).list_depth + 1,
    {
        match tag {
            MdTag::Paragraph => {
                if !self.in_item {
                    self.block_separator();
                }
                Ok(())
            },
            MdTag::Heading(level) => {
                let open = heading_open(*level);
                match open {
                    Ok(h) => {
                        self.block_separator();
                        push_str(&mut self.output, h);
                        Ok(())
                    },
                    Err(e) => Err(e),
                }
            },
            MdTag::List(None) => {
                if self.list_depth != 0 {
                    return Err("nested lists are not supported".to_owned());
                }
                self.block_separator();
                push_str(&mut self.output, "[list]\n");
                self.list_depth = 1;
                Ok(())
            },
            MdTag::List(Some(_)) => Err("ordered lists are not supported; use `-` bullets".to_owned()),
            MdTag::Item => {
                push_str(&mut self.output, "[*]");
                self.in_item = true;
                Ok(())
            },
            MdTag::Emphasis => {
                push_str(&mut self.output, "[i]");
                Ok(())
            },
            MdTag::Strong => {
                push_str(&mut self.output, "[b]");
                Ok(())
            },
            MdTag::Link(dest_url) => {
                if !is_safe_url(dest_url.as_str()) {
                    let mut m = String::new();
                    push_str(&mut m, "unsupported or unsafe link URL: ");
                    push_str(&mut m, dest_url.as_str());
                    return Err(m);
                }
                push_str(&mut self.output, "[url=");
                push_str(&mut self.output, dest_url.as_str());
                push_char(&mut self.output, ']');
                proof {
                    reveal_strlit("[url=");
                    reveal_strlit("]");
                }
                Ok(())
            },
            MdTag::CodeBlock => {
                self.block_separator();
                push_str(&mut self.output, "[code]\n");
                Ok(())
            },
            MdTag::Other => Err("unsupported Markdown block in Workshop description".to_owned()),
        }
    }

    /// Renders the close of a supported container.
    pub fn end(&mut self, tag: &MdTagEnd) -> (r: Result<(), String>)
        ensures
            match end_step(old(self).view(), *tag) {
                Ok(s) => r is Ok && final(self).view() == s,
                Err(m) => r matches Err(e) && e@ == m,
            },
            final(self).list_depth <= old(self).list_depth,
    {
        match tag {
            MdTagEnd::Paragraph => {
                if !self.in_item {
                    push_str(&mut self.output, "\n\n");
                }
                Ok(())
            },
            MdTagEnd::Heading(level) => {
                match heading_close(*level) {
                    Ok(h) => {
                        push_str(&mut self.output, h);
                        push_str(&mut self.output, "\n\n");
                        proof {
                            reveal_strlit("\n\n");
                        }
                        Ok(())
                    },
                    Err(e) => Err(e),
                }
            },
            MdTagEnd::List(false) => {
                self.list_depth = if self.list_depth == 0 { 0 } else { self.list_depth - 1 };
                push_str(&mut self.output, "[/list]\n\n");
                Ok(())
            },
            MdTagEnd::List(true) => Err("ordered lists are not supported; use `-` bullets".to_owned()),
            MdTagEnd::Item => {
                self.in_item = false;
                push_char(&mut self.output, '\n');
                Ok(())
            },
            MdTagEnd::Emphasis => {
                push_str(&mut self.output, "[/i]");
                Ok(())
            },
            MdTagEnd::Strong => {
                push_str(&mut self.output, "[/b]");
                Ok(())
            },
            MdTagEnd::Link => {
                push_str(&mut self.output, "[/url]");
                Ok(())
            },
            MdTagEnd::CodeBlock => {
                push_str(&mut self.output, "\n[/code]\n\n");
                Ok(())
            },
            MdTagEnd::Other => Err("unsupported Markdown block in Workshop description".to_owned()),
        }
    }

    /// Appends text while preventing it from opening or closing raw BBCode tags.
    pub fn text(&mut self, text: &str)
        ensures
            final(self).view() == (old(self).output@ + escaped(text@), old(self).list_depth as nat, old(self).in_item),
    {
        let v = chars_of(text);
        let mut i: usize = 0;
        while i < v.len()
            invariant
                i <= v.len(),
                v@ == text@,
                self.list_depth == old(self).list_depth,
                self.in_item == old(self).in_item,
                self.output@ == old(self).output@ + escaped(v@.take(i as int)),
            decreases v.len() - i,
        {
            assert(v@.take(i + 1).drop_last() == v@.take(i as int));
            assert(v@.take(i + 1).last() == v@[i as int]);
            if v[i] == '[' {
                push_str(&mut self.output, "&#91;");
            } else if v[i] == ']' {
                push_str(&mut self.output, "&#93;");
            } else {
                push_char(&mut self.output, v[i]);
            }
            i = i + 1;
        }
        assert(v@.take(v.len() as int) == v@);
    }

    /// Ensures the next block begins after exactly one blank line.
    pub fn block_separator(&mut self)
        ensures
            final(self).view() == (separated(old(self).output@), old(self).list_depth as nat, old(self).in_item),
    {
        let v = chars_of(self.output.as_str());
        let n = v.len();
        if n == 0 || (n >= 2 && v[n - 1] == '\n' && v[n - 2] == '\n') {
            return;
        }
        if v[n - 1] != '\n' {
            push_char(&mut self.output, '\n');
        }
        push_char(&mut self.output, '\n');
        assert(self.output@ =~= separated(old(self).output@));
    }
}

/// Returns the BBCode opening tag for one supported heading level.
pub fn heading_open(level: u8) -> (r: Result<&'static str, String>)
    ensures
        match heading_tag(level, true) {
            Ok(t) => r matches Ok(s) && s@ == t,
            Err(m) => r matches Err(e) && e@ == m,
        },
{
    if level == 1 {
        Ok("[h1]")
    } else if level == 2 {
        Ok("[h2]")
    } else if level == 3 {
        Ok("[h3]")
    } else {
        Err("only heading levels 1 through 3 are supported".to_owned())
    }
}

/// Returns the BBCode closing tag for one supported heading level.
pub fn heading_close(level: u8) -> (r: Result<&'static str, String>)
    ensures
        match heading_tag(level, false) {
            Ok(t) => r matches Ok(s) && s@ == t,
            Err(m) => r matches Err(e) && e@ == m,
        },
{
    if level == 1 {
        Ok("[/h1]")
    } else if level == 2 {
        Ok("[/h2]")
    } else if level == 3 {
        Ok("[/h3]")
    } else {
        Err("only heading levels 1 through 3 are supported".to_owned())
    }
}

fn has_prefix(v: &Vec<char>, p: &str) -> (r: bool)
    ensures
        r == starts_with(v@, p@),
{
    let w = chars_of(p);
    if w.len() > v.len() {
        return false;
    }
    let mut i: usize = 0;
    while i < w.len()
        invariant
            i <= w.len() <= v.len(),
            w@ == p@,
            forall|j: int| 0 <= j < i ==> v@[j] == w@[j],
        decreases w.len() - i,
    {
        if v[i] != w[i] {
            assert(v@.take(w.len() as int)[i as int] != w@[i as int]);
            return false;
        }
        i = i + 1;
    }
    assert(v@.take(w.len() as int) =~= w@);
    true
}

/// Whether a link destination is a web URL that cannot break out of a
/// BBCode `url` tag.
pub fn is_safe_url(url: &str) -> (r: bool)
    ensures
        r == safe_url(url@),
{
    let v = chars_of(url);
    if !(has_prefix(&v, "https://") || has_prefix(&v, "http://")) {
        return false;
    }
    let mut i: usize = 0;
    while i < v.len()
        invariant
            i <= v.len(),
            v@ == url@,
            forall|j: int| 0 <= j < i ==> !is_control(#[trigger] v@[j]) && v@[j] != ']',
        decreases v.len() - i,
    {
        if crate::text::char_is_control(v[i]) || v[i] == ']' {
            return false;
        }
        i = i + 1;
    }
    true
}

/// Converts the supported CommonMark subset of a document into Steam
/// BBCode, or names the first construct outside it.
pub fn markdown_to_bbcode(markdown: &str) -> (r: Result<String, String>)
    ensures
        match bbcode_of(markdown_events(markdown@)) {
            Ok(t) => r matches Ok(s) && s@ == t,
            Err(m) => r matches Err(e) && e@ == m,
        },
{
    let events = parse_markdown(markdown);
    render_events(events)
}

/// Renders a sequence of parser events into BBCode, or names the first
/// construct outside the supported subset.
pub fn render_events(events: Vec<MdEvent<String>>) -> (r: Result<String, String>)
    ensures
        match bbcode_of(events_view(events@)) {
            Ok(t) => r matches Ok(s) && s@ == t,
            Err(m) => r matches Err(e) && e@ == m,
        },
{
    let ghost all = events_view(events@);
    let mut renderer = Renderer::new();
    let mut k: usize = 0;
    while k < events.len()
        invariant
            k <= events.len(),
            all == events_view(events@),
            renderer.list_depth <= 1,
            run(all.take(k as int)) == Ok::<RenderView, Seq<char>>(renderer.view()),
        decreases events.len() - k,
    {
        proof {
            assert(all.take(k + 1).drop_last() == all.take(k as int));
            assert(all.take(k + 1).last() == event_view(events@[k as int]));
            lemma_step_depth(renderer.view(), event_view(events@[k as int]));
        }
        match renderer.event(&events[k]) {
            Ok(()) => {},
            Err(m) => {
                proof {
                    lemma_run_keeps_error(all, k + 1);
                }
                return Err(m);
            },
        }
        k = k + 1;
    }
    assert(all.take(events.len() as int) == all);
    Ok(trim_end_string(renderer.output.as_str()))
}

/// A refused event ends the rendering: every longer sequence of events is
/// refused the same way.
pub proof fn lemma_run_keeps_error(events: Seq<MdEvent<Seq<char>>>, k: int)
    requires
        0 <= k <= events.len(),
        run(events.take(k)) is Err,
    ensures
        run(events) == run(events.take(k)),
    decreases events.len() - k,
{
    if k < events.len() {
        assert(events.take(k + 1).drop_last() == events.take(k));
        lemma_run_keeps_error(events, k + 1);
    } else {
        assert(events.take(k) == events);
    }
}

/// No event opens a second list level: the renderer refuses nested lists.
pub proof fn lemma_step_depth(s: RenderView, e: MdEvent<Seq<char>>)
    requires
        s.1 <= 1,
    ensures
        step(s, e) matches Ok(t) ==> t.1 <= 1,
{
}

/// Steam Workshop's limit on a description, in UTF-8 bytes (exclusive).
pub const DESCRIPTION_MAX_BYTES: usize = 8_000;

/// The number of UTF-8 bytes that encode one character.
pub open spec fn utf8_width(c: char) -> nat {
    let n = c as u32;
    if n < 0x80 {
        1
    } else if n < 0x800 {
        2
    } else if n < 0x10000 {
        3
    } else {
        4
    }
}

/// The UTF-8 length of a text, as `str::len` reports it.
pub open spec fn utf8_len(s: Seq<char>) -> nat
    decreases s.len(),
{
    if s.len() == 0 {
        0
    } else {
        utf8_len(s.drop_last()) + utf8_width(s.last())
    }
}

fn utf8_length(s: &str) -> (r: u128)
    ensures
        r == utf8_len(s@),
{
    let v = chars_of(s);
    let mut n: u128 = 0;
    let mut i: usize = 0;
    while i < v.len()
        invariant
            i <= v.len(),
            v@ == s@,
            n <= 4 * i,
            n == utf8_len(v@.take(i as int)),
        decreases v.len() - i,
    {
        assert(v@.take(i + 1).drop_last() == v@.take(i as int));
        let c = v[i] as u32;
        let w: u128 = if c < 0x80 {
            1
        } else if c < 0x800 {
            2
        } else if c < 0x10000 {
            3
        } else {
            4
        };
        n = n + w;
        i = i + 1;
    }
    assert(v@.take(v.len() as int) == v@);
    n
}

/// The metadata lines that carry a rendered description.
pub open spec fn description_field_lines(d: Seq<char>) -> Seq<char> {
    join_lines(lines(d).map_values(|l: Seq<char>| "description="@ + l))
}

/// The description lines for rendered BBCode, or the validation error
/// message for a refused, empty or oversized description.
pub open spec fn description_outcome(path: Seq<char>, bbcode: Result<Seq<char>, Seq<char>>) -> Result<Seq<char>, Seq<char>> {
    match bbcode {
        Err(m) => Err(path + ": "@ + m),
        Ok(d) => if all_white(d) {
            Err(path + ": Workshop description must not be empty"@)
        } else if utf8_len(d) >= DESCRIPTION_MAX_BYTES {
            Err("Workshop description must be under 8000 bytes; found "@ + decimal(utf8_len(d)))
        } else {
            Ok(description_field_lines(d))
        },
    }
}

/// `s` with its single occurrence of `pat` replaced by `by`.
pub open spec fn replace_once(s: Seq<char>, pat: Seq<char>, by: Seq<char>) -> Seq<char> {
    match find_seq(s, pat) {
        Some(i) => s.take(i) + by + s.skip(i + pat.len()),
        None => s,
    }
}

/// The Workshop metadata text, or the validation error message.
pub open spec fn workshop_outcome(
    description_path: Seq<char>,
    bbcode: Result<Seq<char>, Seq<char>>,
    workshop_path: Seq<char>,
    workshop: Seq<char>,
) -> Result<Seq<char>, Seq<char>> {
    match description_outcome(description_path, bbcode) {
        Err(e) => Err(e),
        Ok(block) => if count_matches(workshop, description_marker()) != 1 {
            Err(workshop_path + ": {{DESCRIPTION}} must appear exactly once"@)
        } else {
            Ok(replace_once(workshop, description_marker(), block))
        },
    }
}

/// A result of strings as plain values.
pub open spec fn text_result(r: Result<String, String>) -> Result<Seq<char>, Seq<char>> {
    match r {
        Ok(t) => Ok(t@),
        Err(e) => Err(e@),
    }
}

/// A validation error with the given message, as plain values.
pub open spec fn is_validation_error(e: Error, m: Seq<char>) -> bool {
    e.kind == crate::error::ErrorKind::Validation && e.message@ == m && e.exit_code == 1
}

fn prefixed_line(prefix: &str, v: &Vec<char>, from: usize, to: usize) -> (r: String)
    requires
        from <= to <= v.len(),
    ensures
        r@ == prefix@ + v@.subrange(from as int, to as int),
{
    let mut s = String::new();
    push_str(&mut s, prefix);
    let t = string_from_range(v, from, to);
    push_str(&mut s, t.as_str());
    s
}

/// Checks rendered BBCode against the Workshop limits and turns it into
/// `description=` lines.
#[verifier::spinoff_prover]
#[verifier::rlimit(50)]
pub fn description_lines(description_path: &str, bbcode: Result<String, String>) -> (r: Result<String, Error>)
    ensures
        match description_outcome(description_path@, text_result(bbcode)) {
            Ok(t) => r matches Ok(s) && s@ == t,
            Err(m) => r matches Err(e) && is_validation_error(e, m),
        },
{
    let d = match bbcode {
        Err(m) => {
            let mut t = String::new();
            push_str(&mut t, description_path);
            push_str(&mut t, ": ");
            push_str(&mut t, m.as_str());
            proof { reveal_strlit(": "); }
            return Err(Error::validation(t.as_str()));
        },
        Ok(d) => d,
    };
    let v = chars_of(d.as_str());
    if is_blank(&v, 0, v.len()) {
        assert(v@.subrange(0, v.len() as int) == v@);
        let mut t = String::new();
        push_str(&mut t, description_path);
        push_str(&mut t, ": Workshop description must not be empty");
        return Err(Error::validation(t.as_str()));
    }
    assert(v@.subrange(0, v.len() as int) == v@);
    let n = utf8_length(d.as_str());
    if n >= DESCRIPTION_MAX_BYTES as u128 {
        let mut t = String::new();
        push_str(&mut t, "Workshop description must be under 8000 bytes; found ");
        let c = fmt_u128(n);
        push_str(&mut t, c.as_str());
        return Err(Error::validation(t.as_str()));
    }
    let spans = line_spans(&v);
    let ghost ls = lines(v@);
    let ghost pl = ls.map_values(|l: Seq<char>| "description="@ + l);
    let mut out = String::new();
    let mut k: usize = 0;
    while k < spans.len()
        invariant
            k <= spans.len(),
            crate::text::spans(v@, spans@) == ls,
            forall|j: int| 0 <= j < spans.len() ==> #[trigger] spans@[j].0 <= spans@[j].1 <= v.len(),
            pl == ls.map_values(|l: Seq<char>| "description="@ + l),
            out@ == join_lines(pl.take(k as int)),
        decreases spans.len() - k,
    {
        let (a, b) = spans[k];
        let line = prefixed_line("description=", &v, a, b);
        if k > 0 {
            push_str(&mut out, "\n");
        }
        push_str(&mut out, line.as_str());
        proof {
            reveal_strlit("\n");
            assert(pl.take(k + 1).drop_last() == pl.take(k as int));
            assert(pl.take(k + 1).last() == "description="@ + v@.subrange(a as int, b as int));
            if k == 0 {
                assert(pl.take(1).len() == 1);
            }
        }
        k = k + 1;
    }
    assert(pl.take(spans.len() as int) == pl);
    Ok(out)
}

/// Replaces the single description marker of the Workshop metadata text by
/// the rendered description lines.
pub fn render(description_path: &str, markdown: &str, workshop_path: &str, workshop: &str) -> (r: Result<String, Error>)
    ensures
        match workshop_outcome(
            description_path@,
            match bbcode_of(markdown_events(markdown@)) {
                Ok(t) => Ok(t),
                Err(m) => Err(m),
            },
            workshop_path@,
            workshop@,
        ) {
            Ok(t) => r matches Ok(s) && s@ == t,
            Err(m) => r matches Err(e) && is_validation_error(e, m),
        },
{
    let bbcode = markdown_to_bbcode(markdown);
    let block = match description_lines(description_path, bbcode) {
        Err(e) => return Err(e),
        Ok(b) => b,
    };
    proof { reveal_strlit("{{DESCRIPTION}}"); }
    if crate::text::count_occurrences(workshop, "{{DESCRIPTION}}") != 1 {
        let mut t = String::new();
        push_str(&mut t, workshop_path);
        push_str(&mut t, ": {{DESCRIPTION}} must appear exactly once");
        proof { reveal_strlit(": {{DESCRIPTION}} must appear exactly once"); }
        return Err(Error::validation(t.as_str()));
    }
    let w = chars_of(workshop);
    let m = chars_of("{{DESCRIPTION}}");
    let i = crate::text::find_seq_from(&w, 0, &m);
    proof {
        assert(w@.skip(0) == w@);
        crate::text::lemma_find_seq(w@, m@);
        assert(count_matches(w@, m@) == 1);
    }
    let mut out = string_from_range(&w, 0, i);
    push_str(&mut out, block.as_str());
    let tail = string_from_range(&w, i + m.len(), w.len());
    push_str(&mut out, tail.as_str());
    assert(w@.subrange(0, i as int) == w@.take(i as int));
    assert(w@.subrange(i + m.len(), w.len() as int) == w@.skip(i + m.len()));
    Ok(out)
}


/// The Workshop metadata of a package: the description with each
/// `{{MOD_VERSION}}` marker replaced by the mod's version, rendered into the
/// metadata text as [`render`] does.
pub fn render_with_version(
    description_path: &str,
    markdown: &str,
    version: &str,
    workshop_path: &str,
    workshop: &str,
) -> (r: Result<String, Error>)
    ensures
        ({
            let described = crate::artifact::replace_all(markdown@, "{{MOD_VERSION}}"@, version@);
            match workshop_outcome(
                description_path@,
                match bbcode_of(markdown_events(described)) {
                    Ok(t) => Ok(t),
                    Err(m) => Err(m),
                },
                workshop_path@,
                workshop@,
            ) {
                Ok(t) => r matches Ok(s) && s@ == t,
                Err(m) => r matches Err(e) && is_validation_error(e, m),
            }
        }),
{
    proof { reveal_strlit("{{MOD_VERSION}}"); }
    let described = crate::artifact::replace_str(markdown, "{{MOD_VERSION}}", version);
    render(description_path, described.as_str(), workshop_path, workshop)
}

} // verus!
