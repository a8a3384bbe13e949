//! Markdown rendering. A verified two-state machine walks the event stream
//! and collapses each fenced code block — however many text events its
//! content arrives in — into one highlighted HTML fragment; turning the text
//! into events and the events into HTML is pulldown-cmark's work.

use vstd::prelude::*;

use pulldown_cmark::CodeBlockKind;
use pulldown_cmark::Event;
use pulldown_cmark::Tag;
use pulldown_cmark::TagEnd;

use crate::syntax_highlighting;
use crate::syntax_highlighting::highlight_of;

verus! {

/// pulldown-cmark's event type, carried through the renderer opaquely.
#[verifier::external_type_specification]
#[verifier::external_body]
pub struct ExEvent<'a>(pulldown_cmark::Event<'a>);

/// One Markdown structural event as the renderer reads it: fenced code block
/// boundaries and text are told apart, everything else passes through.
#[derive(Debug, PartialEq)]
pub enum MdEvent {
    /// A fenced code block opens; `language` is the fence's info token.
    CodeStart { language: String },
    /// A code block closes.
    CodeEnd,
    /// Inline text.
    Text { text: String },
    /// A raw HTML fragment, as emitted for a highlighted code block.
    Html { html: String },
    /// Any other event, passed through untouched.
    Other { event: pulldown_cmark::Event<'static> },
}

/// Mathematical view of an `MdEvent`.
pub enum EventView {
    CodeStart { language: Seq<char> },
    CodeEnd,
    Text { text: Seq<char> },
    Html { html: Seq<char> },
    Other { event: pulldown_cmark::Event<'static> },
}

impl View for MdEvent {
    type V = EventView;

    open spec fn view(&self) -> EventView {
        match self {
            MdEvent::CodeStart { language } => EventView::CodeStart { language: language@ },
            MdEvent::CodeEnd => EventView::CodeEnd,
            MdEvent::Text { text } => EventView::Text { text: text@ },
            MdEvent::Html { html } => EventView::Html { html: html@ },
            MdEvent::Other { event } => EventView::Other { event: *event },
        }
    }
}

/// The views of a sequence of events.
pub open spec fn views_of(s: Seq<MdEvent>) -> Seq<EventView> {
    s.map_values(|e: MdEvent| e@)
}

/// The events pulldown-cmark parses `source` into, with every option
/// enabled, as the renderer reads them.
pub uninterp spec fn md_events_of(source: Seq<char>) -> Seq<EventView>;

/// The HTML pulldown-cmark emits for an event sequence.
pub uninterp spec fn html_of(events: Seq<EventView>) -> Seq<char>;

/// Relies on `pulldown_cmark::Parser::new_ext`: parsing is a function of the
/// source text alone. Each event is read into the renderer's event type;
/// only fenced code block boundaries and text are told apart.
#[verifier::external_body]
fn parse_events(source: &str) -> (r: Vec<MdEvent>)
    ensures
        views_of(r@) == md_events_of(source@),
{
    let parser = pulldown_cmark::Parser::new_ext(source, pulldown_cmark::Options::all());
    parser.map(|event| match event {
        Event::Start(Tag::CodeBlock(CodeBlockKind::Fenced(language))) => MdEvent::CodeStart {
            language: language.into_string(),
        },
        Event::End(TagEnd::CodeBlock) => MdEvent::CodeEnd,
        Event::Text(text) => MdEvent::Text { text: text.into_string() },
        other => MdEvent::Other { event: other.into_static() },
    }).collect()
}

/// Relies on `pulldown_cmark::html::push_html`: HTML emission is a function
/// of the event sequence alone. Each of the renderer's events is turned back
/// into the event it stands for.
#[verifier::external_body]
fn events_to_html(events: Vec<MdEvent>) -> (r: String)
    ensures
        r@ == html_of(views_of(events@)),
{
    let mut out = String::new();
    let converted = events.into_iter().map(|event| match event {
        MdEvent::CodeStart { language } => Event::Start(
            Tag::CodeBlock(CodeBlockKind::Fenced(language.into())),
        ),
        MdEvent::CodeEnd => Event::End(TagEnd::CodeBlock),
        MdEvent::Text { text } => Event::Text(text.into()),
        MdEvent::Html { html } => Event::Html(html.into()),
        MdEvent::Other { event } => event,
    });
    pulldown_cmark::html::push_html(&mut out, converted);
    out
}

/// The renderer's state: outside or inside a fenced code block, with the
/// block's language token and the text accumulated so far.
pub struct RenderState {
    pub in_code: bool,
    pub language: Seq<char>,
    pub buffer: Seq<char>,
}

/// The renderer starts outside any code block.
pub open spec fn initial_state() -> RenderState {
    RenderState { in_code: false, language: Seq::empty(), buffer: Seq::empty() }
}

/// The HTML fragment a finished code block collapses to.
pub open spec fn spec_wrap_code(language: Seq<char>, code: Seq<char>) -> Seq<char> {
    "<pre class=\"language-"@ + language + "\"><code>"@ + highlight_of(language, code)
        + "</code></pre>"@
}

/// One step of the renderer: the state after `ev`, and what is emitted.
///
/// * A code block opening selects the language and enters the block.
/// * Text inside a block is accumulated verbatim; outside, passed through.
/// * A block closing flushes the accumulated text as one highlighted HTML
///   fragment and resets the state; outside a block it passes through.
/// * Everything else passes through unchanged.
pub open spec fn spec_step(st: RenderState, ev: EventView) -> (RenderState, Seq<EventView>) {
    match ev {
        EventView::CodeStart { language } => (
            RenderState { in_code: true, language, buffer: st.buffer },
            Seq::<EventView>::empty(),
        ),
        EventView::CodeEnd => if st.in_code {
            (
                initial_state(),
                seq![EventView::Html { html: spec_wrap_code(st.language, st.buffer) }],
            )
        } else {
            (st, seq![ev])
        },
        EventView::Text { text } => if st.in_code {
            (
                RenderState { in_code: st.in_code, language: st.language, buffer: st.buffer + text },
                Seq::<EventView>::empty(),
            )
        } else {
            (st, seq![ev])
        },
        _ => (st, seq![ev]),
    }
}

/// What the renderer emits for `events`, starting in state `st`.
pub open spec fn spec_collapse_from(events: Seq<EventView>, st: RenderState) -> Seq<EventView>
    decreases events.len(),
{
    if events.len() == 0 {
        Seq::<EventView>::empty()
    } else {
        spec_step(st, events[0]).1 + spec_collapse_from(
            events.drop_first(),
            spec_step(st, events[0]).0,
        )
    }
}

/// The renderer's state once `events` have been walked, starting from `st`.
pub open spec fn spec_state_after(events: Seq<EventView>, st: RenderState) -> RenderState
    decreases events.len(),
{
    if events.len() == 0 {
        st
    } else {
        spec_state_after(events.drop_first(), spec_step(st, events[0]).0)
    }
}

/// The collapsed form of an event sequence, started outside any code block.
pub open spec fn spec_collapse(events: Seq<EventView>) -> Seq<EventView> {
    spec_collapse_from(events, initial_state())
}

/// Walking one more event emits what that event's step emits.
proof fn lemma_collapse_snoc(events: Seq<EventView>, ev: EventView, st: RenderState)
    ensures
        spec_collapse_from(events.push(ev), st) == spec_collapse_from(events, st) + spec_step(
            spec_state_after(events, st),
            ev,
        ).1,
        spec_state_after(events.push(ev), st) == spec_step(spec_state_after(events, st), ev).0,
    decreases events.len(),
{
    if events.len() == 0 {
        assert(events.push(ev)[0] == ev);
        assert(events.push(ev).drop_first() =~= Seq::<EventView>::empty());
        assert(spec_collapse_from(Seq::<EventView>::empty(), spec_step(st, ev).0)
            =~= Seq::<EventView>::empty());
        assert(spec_state_after(Seq::<EventView>::empty(), spec_step(st, ev).0) == spec_step(
            st,
            ev,
        ).0);
        assert(spec_collapse_from(events, st) + spec_step(st, ev).1 =~= spec_step(st, ev).1);
        assert(spec_step(st, ev).1 + Seq::<EventView>::empty() =~= spec_step(st, ev).1);
    } else {
        let st1 = spec_step(st, events[0]).0;
        assert(events.push(ev)[0] == events[0]);
        assert(events.push(ev).drop_first() =~= events.drop_first().push(ev));
        lemma_collapse_snoc(events.drop_first(), ev, st1);
        assert(spec_state_after(events.push(ev), st) == spec_state_after(
            events.drop_first().push(ev),
            st1,
        ));
        assert(spec_state_after(events, st) == spec_state_after(events.drop_first(), st1));
        assert(spec_collapse_from(events.push(ev), st) == spec_step(st, events[0]).1
            + spec_collapse_from(events.drop_first().push(ev), st1));
        assert(spec_collapse_from(events, st) == spec_step(st, events[0]).1
            + spec_collapse_from(events.drop_first(), st1));
        assert(spec_step(st, events[0]).1 + (spec_collapse_from(events.drop_first(), st1)
            + spec_step(spec_state_after(events, st), ev).1) =~= (spec_step(st, events[0]).1
            + spec_collapse_from(events.drop_first(), st1)) + spec_step(
            spec_state_after(events, st),
            ev,
        ).1);
    }
}

/// Walking a concatenation emits the two parts' emissions in order, the
/// second part walked from the state the first part ends in.
pub proof fn lemma_collapse_concat(a: Seq<EventView>, b: Seq<EventView>, st: RenderState)
    ensures
        spec_collapse_from(a + b, st) == spec_collapse_from(a, st) + spec_collapse_from(
            b,
            spec_state_after(a, st),
        ),
        spec_state_after(a + b, st) == spec_state_after(b, spec_state_after(a, st)),
    decreases a.len(),
{
    if a.len() == 0 {
        assert(a + b =~= b);
        assert(spec_collapse_from(a, st) + spec_collapse_from(b, st) =~= spec_collapse_from(
            b,
            st,
        ));
    } else {
        let st1 = spec_step(st, a[0]).0;
        assert((a + b)[0] == a[0]);
        assert((a + b).drop_first() =~= a.drop_first() + b);
        lemma_collapse_concat(a.drop_first(), b, st1);
        assert(spec_step(st, a[0]).1 + (spec_collapse_from(a.drop_first(), st1)
            + spec_collapse_from(b, spec_state_after(a, st))) =~= (spec_step(st, a[0]).1
            + spec_collapse_from(a.drop_first(), st1)) + spec_collapse_from(
            b,
            spec_state_after(a, st),
        ));
    }
}

/// Builds `<pre class="language-{language}"><code>{highlighted}</code></pre>`.
fn wrap_code(language: &str, highlighted: &str) -> (r: String)
    ensures
        r@ == "<pre class=\"language-"@ + language@ + "\"><code>"@ + highlighted@
            + "</code></pre>"@,
{
    let mut r = "<pre class=\"language-".to_owned();
    r.append(language);
    r.append("\"><code>");
    r.append(highlighted);
    r.append("</code></pre>");
    r
}

/// Runs the renderer's state machine over an event sequence: each fenced
/// code block is collapsed into one highlighted HTML fragment, everything
/// else is passed through in order.
pub fn collapse_events(events: Vec<MdEvent>) -> (r: Vec<MdEvent>)
    ensures
        views_of(r@) == spec_collapse(views_of(events@)),
{
    let ghost all = views_of(events@);
    let mut rest = events;
    let mut out: Vec<MdEvent> = Vec::new();
    let mut in_code = false;
    let mut language = String::new();
    let mut buffer = String::new();
    let ghost mut i: int = 0;
    proof {
        assert(all.take(0) =~= Seq::<EventView>::empty());
        assert(views_of(out@) =~= Seq::<EventView>::empty());
    }
    while rest.len() > 0
        invariant
            0 <= i,
            i + rest@.len() == all.len(),
            views_of(rest@) =~= all.subrange(i, all.len() as int),
            views_of(out@) == spec_collapse_from(all.take(i), initial_state()),
            (RenderState { in_code, language: language@, buffer: buffer@ }) == spec_state_after(
                all.take(i),
                initial_state(),
            ),
        decreases rest@.len(),
    {
        let ghost st = spec_state_after(all.take(i), initial_state());
        let ghost prev = rest@;
        let ev = rest.remove(0);
        let ghost evv = ev@;
        proof {
            assert(views_of(prev) == all.subrange(i, all.len() as int));
            assert(views_of(prev)[0] == prev[0]@);
            assert(evv == all[i]);
            assert(rest@ == prev.remove(0));
            assert forall|j: int| 0 <= j < rest@.len() implies views_of(rest@)[j] == all[i + 1
                + j] by {
                assert(rest@[j] == prev[j + 1]);
                assert(views_of(prev)[j + 1] == prev[j + 1]@);
            }
            assert(views_of(rest@) =~= all.subrange(i + 1, all.len() as int));
            assert(all.take(i).push(all[i]) =~= all.take(i + 1));
            lemma_collapse_snoc(all.take(i), all[i], initial_state());
        }
        match ev {
            MdEvent::CodeStart { language: l } => {
                language = l;
                in_code = true;
                proof {
                    assert(views_of(out@) + Seq::<EventView>::empty() =~= views_of(out@));
                }
            },
            MdEvent::CodeEnd => {
                if in_code {
                    let highlighted = syntax_highlighting::highlight_code(
                        buffer.as_str(),
                        language.as_str(),
                    );
                    let html = wrap_code(language.as_str(), highlighted.as_str());
                    proof {
                        assert(html@ == spec_wrap_code(st.language, st.buffer));
                    }
                    out.push(MdEvent::Html { html });
                    in_code = false;
                    language = String::new();
                    buffer = String::new();
                    proof {
                        assert(views_of(out@) =~= spec_collapse_from(all.take(i), initial_state())
                            + spec_step(st, evv).1);
                    }
                } else {
                    out.push(MdEvent::CodeEnd);
                    proof {
                        assert(views_of(out@) =~= spec_collapse_from(all.take(i), initial_state())
                            + spec_step(st, evv).1);
                    }
                }
            },
            MdEvent::Text { text } => {
                if in_code {
                    buffer.append(text.as_str());
                    proof {
                        assert(views_of(out@) + Seq::<EventView>::empty() =~= views_of(out@));
                    }
                } else {
                    out.push(MdEvent::Text { text });
                    proof {
                        assert(views_of(out@) =~= spec_collapse_from(all.take(i), initial_state())
                            + spec_step(st, evv).1);
                    }
                }
            },
            other => {
                out.push(other);
                proof {
                    assert(views_of(out@) =~= spec_collapse_from(all.take(i), initial_state())
                        + spec_step(st, evv).1);
                }
            },
        }
        proof {
            i = i + 1;
        }
    }
    proof {
        assert(all.take(all.len() as int) =~= all);
    }
    out
}

/// What rendering a Markdown text produces: pulldown-cmark's HTML for its
/// event sequence with each fenced code block collapsed to one highlighted
/// fragment.
pub open spec fn spec_render_markdown(source: Seq<char>) -> Seq<char> {
    html_of(spec_collapse(md_events_of(source)))
}

/// Renders Markdown to HTML, highlighting fenced code blocks.
pub fn render_markdown(source: &str) -> (r: String)
    ensures
        r@ == spec_render_markdown(source@),
{
    let events = parse_events(source);
    let collapsed = collapse_events(events);
    events_to_html(collapsed)
}

/// Splitting a code block's content across several text events changes
/// nothing: two consecutive text events inside a code block collapse exactly
/// as the one event carrying their concatenation.
pub proof fn lemma_text_events_coalesce(
    before: Seq<EventView>,
    after: Seq<EventView>,
    a: Seq<char>,
    b: Seq<char>,
)
    requires
        spec_state_after(before, initial_state()).in_code,
    ensures
        spec_collapse(
            before + seq![EventView::Text { text: a }, EventView::Text { text: b }] + after,
        ) == spec_collapse(before + seq![EventView::Text { text: a + b }] + after),
{
    let st0 = initial_state();
    let st1 = spec_state_after(before, st0);
    let ta = EventView::Text { text: a };
    let tb = EventView::Text { text: b };
    let tab = EventView::Text { text: a + b };
    let two = seq![ta, tb];
    let one = seq![tab];
    let st_a = spec_step(st1, ta).0;
    let empty = Seq::<EventView>::empty();

    // Both shapes leave the same state: the buffer grows by `a + b`.
    assert(two[0] == ta);
    assert(two.drop_first() =~= seq![tb]);
    assert(seq![tb][0] == tb);
    assert(seq![tb].drop_first() =~= empty);
    assert(one[0] == tab);
    assert(one.drop_first() =~= empty);
    assert(st_a == (RenderState { in_code: true, language: st1.language, buffer: st1.buffer + a }));
    assert(spec_state_after(two, st1) == spec_state_after(seq![tb], st_a));
    assert(spec_state_after(seq![tb], st_a) == spec_state_after(empty, spec_step(st_a, tb).0));
    assert(spec_state_after(empty, spec_step(st_a, tb).0) == spec_step(st_a, tb).0);
    assert(spec_state_after(one, st1) == spec_state_after(empty, spec_step(st1, tab).0));
    assert(spec_state_after(empty, spec_step(st1, tab).0) == spec_step(st1, tab).0);
    assert((st1.buffer + a) + b =~= st1.buffer + (a + b));
    assert(spec_state_after(two, st1) == spec_state_after(one, st1));

    // Neither shape emits anything.
    assert(spec_collapse_from(empty, spec_step(st_a, tb).0) =~= empty);
    assert(spec_collapse_from(seq![tb], st_a) =~= empty);
    assert(spec_collapse_from(two, st1) =~= empty);
    assert(spec_collapse_from(empty, spec_step(st1, tab).0) =~= empty);
    assert(spec_collapse_from(one, st1) =~= empty);

    lemma_collapse_concat(before, two, st0);
    lemma_collapse_concat(before, one, st0);
    lemma_collapse_concat(before + two, after, st0);
    lemma_collapse_concat(before + one, after, st0);
    assert(spec_collapse_from(before + two, st0) =~= spec_collapse_from(before, st0));
    assert(spec_collapse_from(before + one, st0) =~= spec_collapse_from(before, st0));
    assert(spec_state_after(before + two, st0) == spec_state_after(before + one, st0));
}

} // verus!
