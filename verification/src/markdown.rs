//! Markdown into the reader's HTML: pulldown-cmark parses a chapter into events, each text
//! run is wrapped in a span that carries its source range, image destinations are moved to
//! their workspace paths, and pulldown-cmark writes the HTML of the events.
use pulldown_cmark::{CowStr, Event, LinkType, Options, Parser, Tag};
use vstd::prelude::*;

use crate::media_assets::{AssetPathError, asset_path_check, ensure_workspace_asset_path};
use crate::render::{
    RenderError, SourceLineIndex, position_spec, source_span_open, source_span_text,
    workspace_image_reference, workspace_image_reference_spec,
};
use crate::text::{chars_eq, chars_of};
use crate::workspace::string_views;

verus! {

broadcast use vstd::string::group_string_axioms;

/// A Markdown event from pulldown-cmark.
#[verifier::external_type_specification]
#[verifier::external_body]
pub struct ExEvent<'a>(Event<'a>);

/// The kind of a Markdown link or image (inline, reference, autolink, …).
#[verifier::external_type_specification]
#[verifier::external_body]
pub struct ExLinkType(LinkType);

/// One event of a parsed chapter. What the rendering reads or changes is held as plain
/// values: the start of an image with its destination, a text run with the byte range of
/// the source it came from, and raw HTML put into the output. Every other event is carried
/// through as pulldown-cmark gave it.
#[derive(Debug)]
pub enum MarkdownEvent {
    ImageStart { link_type: LinkType, dest_url: String, title: String, id: String },
    Text { text: String, start: usize, end: usize },
    Html(String),
    Other(Event<'static>),
}

/// A Markdown event, its texts as character sequences.
pub enum MarkdownEventView {
    ImageStart { link_type: LinkType, dest_url: Seq<char>, title: Seq<char>, id: Seq<char> },
    Text { text: Seq<char>, start: usize, end: usize },
    Html(Seq<char>),
    Other(Event<'static>),
}

impl View for MarkdownEvent {
    type V = MarkdownEventView;

    open spec fn view(&self) -> MarkdownEventView {
        match self {
            MarkdownEvent::ImageStart { link_type, dest_url, title, id } => {
                MarkdownEventView::ImageStart {
                    link_type: *link_type,
                    dest_url: dest_url@,
                    title: title@,
                    id: id@,
                }
            },
            MarkdownEvent::Text { text, start, end } => MarkdownEventView::Text {
                text: text@,
                start: *start,
                end: *end,
            },
            MarkdownEvent::Html(h) => MarkdownEventView::Html(h@),
            MarkdownEvent::Other(e) => MarkdownEventView::Other(*e),
        }
    }
}

/// The views of a sequence of events.
pub open spec fn event_views(s: Seq<MarkdownEvent>) -> Seq<MarkdownEventView> {
    s.map_values(|e: MarkdownEvent| e@)
}

/// The events pulldown-cmark gives for a Markdown text, tables enabled, each with the byte
/// range of the source it covers.
pub uninterp spec fn markdown_events_of(markdown: Seq<char>) -> Seq<MarkdownEventView>;

/// Parses Markdown with pulldown-cmark (`Parser::new_ext` with `ENABLE_TABLES`, walked by
/// `into_offset_iter`). Image starts and text runs become plain values, text runs keeping
/// their byte range; every other event is kept as it is. Which events come out is named,
/// not stated.
#[verifier::external_body]
fn markdown_events(markdown: &str) -> (r: Vec<MarkdownEvent>)
    ensures
        event_views(r@) == markdown_events_of(markdown@),
{
    let mut events = Vec::new();
    for (event, range) in Parser::new_ext(markdown, Options::ENABLE_TABLES).into_offset_iter() {
        events.push(match event {
            Event::Start(Tag::Image { link_type, dest_url, title, id }) => MarkdownEvent::ImageStart {
                link_type, dest_url: dest_url.to_string(), title: title.to_string(), id: id.to_string(),
            },
            Event::Text(text) => MarkdownEvent::Text { text: text.to_string(), start: range.start, end: range.end },
            other => MarkdownEvent::Other(other.into_static()),
        });
    }
    events
}

/// The HTML pulldown-cmark writes for a sequence of events.
pub uninterp spec fn events_html_of(events: Seq<MarkdownEventView>) -> Seq<char>;

/// Writes the HTML of events with pulldown-cmark's `html::push_html`, each event turned back
/// into pulldown-cmark's own form (a text run's range is not part of it). The HTML is named,
/// not stated.
#[verifier::external_body]
fn events_to_html(events: &Vec<MarkdownEvent>) -> (r: String)
    ensures
        r@ == events_html_of(event_views(events@)),
{
    let mut out = String::new();
    pulldown_cmark::html::push_html(&mut out, events.iter().map(|e| match e {
        MarkdownEvent::ImageStart { link_type, dest_url, title, id } => Event::Start(Tag::Image {
            link_type: *link_type, dest_url: CowStr::from(dest_url.clone()),
            title: CowStr::from(title.clone()), id: CowStr::from(id.clone()),
        }),
        MarkdownEvent::Text { text, .. } => Event::Text(CowStr::from(text.clone())),
        MarkdownEvent::Html(h) => Event::Html(CowStr::from(h.clone())),
        MarkdownEvent::Other(event) => event.clone(),
    }));
    out
}

/// Which workspace path an image destination stands for: its own text when it names the
/// images directory (a leading `/` dropped), else the path the file system resolves it to
/// from the chapter's directory, else its part under the workspace when it is an absolute
/// path inside it. `None` leaves the destination as written.
pub open spec fn image_reference_choice(
    dest_url: Seq<char>,
    source_relative: Option<Seq<char>>,
    workspace_relative: Option<Seq<char>>,
) -> Option<Seq<char>> {
    match workspace_image_reference_spec(dest_url) {
        Some(p) => Some(p),
        None => match source_relative {
            Some(p) => Some(p),
            None => workspace_relative,
        },
    }
}

/// The workspace path an image destination stands for (see `image_reference_choice`);
/// `source_relative` and `workspace_relative` are what the file system resolved.
pub fn choose_image_reference(
    dest_url: &str,
    source_relative: Option<String>,
    workspace_relative: Option<String>,
) -> (r: Option<String>)
    ensures
        opt_view(r) == image_reference_choice(
            dest_url@,
            opt_view(source_relative),
            opt_view(workspace_relative),
        ),
{
    match workspace_image_reference(dest_url) {
        Some(p) => Some(p),
        None => match source_relative {
            Some(p) => Some(p),
            None => workspace_relative,
        },
    }
}

/// An optional text as characters.
pub open spec fn opt_view(o: Option<String>) -> Option<Seq<char>> {
    match o {
        Some(s) => Some(s@),
        None => None,
    }
}

/// What the file system says of one image destination of a chapter: the workspace path it
/// stands for, if any, and whether a file is there.
#[derive(Debug, Clone)]
pub struct ImageResolution {
    pub dest_url: String,
    pub normalized: Option<String>,
    pub exists: bool,
}

/// `i` is the first resolution given for destination `dest`.
pub open spec fn is_first_resolution(images: Seq<ImageResolution>, dest: Seq<char>, i: int) -> bool {
    &&& 0 <= i < images.len()
    &&& images[i].dest_url@ == dest
    &&& forall|q: int| 0 <= q < i ==> (#[trigger] images[q]).dest_url@ != dest
}

/// The first resolution given for destination `dest`, if any.
pub open spec fn resolution_for(images: Seq<ImageResolution>, dest: Seq<char>) -> Option<
    ImageResolution,
> {
    if exists|i: int| is_first_resolution(images, dest, i) {
        Some(images[choose|i: int| is_first_resolution(images, dest, i)])
    } else {
        None
    }
}

/// Why a chapter's events could not be rewritten.
pub enum RenderFault {
    SourceOffset,
    ImageRefused(AssetPathError),
    ImageMissing(Seq<char>),
}

/// The fault a render error reports, if it is one of the rewriting's.
pub open spec fn render_fault(e: RenderError) -> Option<RenderFault> {
    match e {
        RenderError::NoContent => None,
        RenderError::SourceOffset => Some(RenderFault::SourceOffset),
        RenderError::ImageRefused(a) => Some(RenderFault::ImageRefused(a)),
        RenderError::ImageMissing { dest_url } => Some(RenderFault::ImageMissing(dest_url@)),
    }
}

/// Where an image with destination `dest` points after rendering: a destination with no
/// workspace path is kept; one with a path must pass the asset path check and name an
/// existing file, and is replaced by the path.
pub open spec fn image_destination(dest: Seq<char>, images: Seq<ImageResolution>) -> Result<
    Seq<char>,
    RenderFault,
> {
    match resolution_for(images, dest) {
        Some(r) => match r.normalized {
            Some(n) => match asset_path_check(n@) {
                Err(e) => Err(RenderFault::ImageRefused(e)),
                Ok(_) => if r.exists {
                    Ok(n@)
                } else {
                    Err(RenderFault::ImageMissing(dest))
                },
            },
            None => Ok(dest),
        },
        None => Ok(dest),
    }
}

/// Byte offset `k` can be located in source bytes `b`.
pub open spec fn source_offset_ok(b: Seq<u8>, k: usize) -> bool {
    &&& k <= b.len()
    &&& b.len() < usize::MAX
    &&& vstd::utf8::is_char_boundary(b, k as int)
}

/// What one event of a chapter becomes: a text run is wrapped in a span that carries its
/// source range, an image start gets its workspace destination, every other event stays.
pub open spec fn rewrite_event(
    e: MarkdownEventView,
    markdown: Seq<char>,
    source_file: Seq<char>,
    images: Seq<ImageResolution>,
) -> Result<Seq<MarkdownEventView>, RenderFault> {
    let b = vstd::utf8::encode_utf8(markdown);
    match e {
        MarkdownEventView::Text { text, start, end } => if source_offset_ok(b, start)
            && source_offset_ok(b, end) {
            Ok(
                seq![
                    MarkdownEventView::Html(
                        source_span_text(
                            source_file,
                            position_spec(b, start as int),
                            position_spec(b, end as int),
                        ),
                    ),
                    e,
                    MarkdownEventView::Html("</span>"@),
                ],
            )
        } else {
            Err(RenderFault::SourceOffset)
        },
        MarkdownEventView::ImageStart { link_type, dest_url, title, id } => match image_destination(
            dest_url,
            images,
        ) {
            Ok(d) => Ok(
                seq![MarkdownEventView::ImageStart { link_type, dest_url: d, title, id }],
            ),
            Err(f) => Err(f),
        },
        _ => Ok(seq![e]),
    }
}

/// The events of a chapter after rewriting, event by event; the first event that cannot
/// be rewritten decides the fault.
pub open spec fn rewrite_events_spec(
    events: Seq<MarkdownEventView>,
    markdown: Seq<char>,
    source_file: Seq<char>,
    images: Seq<ImageResolution>,
) -> Result<Seq<MarkdownEventView>, RenderFault>
    decreases events.len(),
{
    if events.len() == 0 {
        Ok(Seq::empty())
    } else {
        match rewrite_event(events[0], markdown, source_file, images) {
            Err(f) => Err(f),
            Ok(x) => match rewrite_events_spec(events.drop_first(), markdown, source_file, images) {
                Err(f) => Err(f),
                Ok(rest) => Ok(x + rest),
            },
        }
    }
}

proof fn lemma_first_resolution(images: Seq<ImageResolution>, dest: Seq<char>, i: int)
    requires
        is_first_resolution(images, dest, i),
    ensures
        resolution_for(images, dest) == Some(images[i]),
{
    let c = choose|c: int| is_first_resolution(images, dest, c);
    assert(is_first_resolution(images, dest, c));
    if c < i {
        assert(images[c].dest_url@ != dest);
    } else if c > i {
        assert(images[i].dest_url@ != dest);
    }
}

/// Where the image with destination `dest_url` points after rendering (see
/// `image_destination`).
pub fn resolve_image_destination(dest_url: String, images: &Vec<ImageResolution>) -> (r: Result<
    String,
    RenderError,
>)
    ensures
        match image_destination(dest_url@, images@) {
            Ok(d) => r matches Ok(s) && s@ == d,
            Err(f) => r matches Err(e) && render_fault(e) == Some(f),
        },
{
    let d = chars_of(dest_url.as_str());
    let mut i: usize = 0;
    while i < images.len()
        invariant
            i <= images@.len(),
            d@ == dest_url@,
            forall|q: int| 0 <= q < i ==> (#[trigger] images@[q]).dest_url@ != dest_url@,
        decreases images.len() - i,
    {
        let entry = &images[i];
        if chars_eq(chars_of(entry.dest_url.as_str()).as_slice(), d.as_slice()) {
            proof {
                lemma_first_resolution(images@, dest_url@, i as int);
            }
            return match &entry.normalized {
                None => Ok(dest_url),
                Some(n) => match ensure_workspace_asset_path(n.as_str()) {
                    Err(e) => Err(RenderError::ImageRefused(e)),
                    Ok(_) => if entry.exists {
                        Ok(n.clone())
                    } else {
                        Err(RenderError::ImageMissing { dest_url })
                    },
                },
            };
        }
        i = i + 1;
    }
    assert(!exists|q: int| is_first_resolution(images@, dest_url@, q));
    Ok(dest_url)
}

/// The rewritten events of a chapter that follow a prefix already rewritten.
pub open spec fn after_prefix(
    prefix: Seq<MarkdownEventView>,
    rest: Result<Seq<MarkdownEventView>, RenderFault>,
) -> Result<Seq<MarkdownEventView>, RenderFault> {
    match rest {
        Ok(r) => Ok(prefix + r),
        Err(f) => Err(f),
    }
}

proof fn lemma_views_push(v: Seq<MarkdownEvent>, x: MarkdownEvent)
    ensures
        event_views(v.push(x)) == event_views(v).push(x@),
{
    assert(event_views(v.push(x)) =~= event_views(v).push(x@));
}

/// Appends what event `e` becomes to `out`.
fn rewrite_one(
    e: MarkdownEvent,
    out: &mut Vec<MarkdownEvent>,
    index: &SourceLineIndex,
    markdown: &str,
    source_file: &str,
    images: &Vec<ImageResolution>,
) -> (r: Result<(), RenderError>)
    requires
        index.well_formed(),
        index.bytes() == vstd::utf8::encode_utf8(markdown@),
    ensures
        match rewrite_event(e@, markdown@, source_file@, images@) {
            Ok(x) => r is Ok && event_views(final(out)@) == event_views(old(out)@) + x,
            Err(f) => r matches Err(err) && render_fault(err) == Some(f),
        },
{
    let ghost before = event_views(out@);
    match e {
        MarkdownEvent::Text { text, start, end } => {
            let len = markdown.as_bytes().len();
            if start <= len && end <= len && len < usize::MAX && markdown.is_char_boundary(start)
                && markdown.is_char_boundary(end) {
                let span = source_span_open(source_file, index.position(start), index.position(end));
                let a = MarkdownEvent::Html(span);
                let b = MarkdownEvent::Text { text, start, end };
                let c = MarkdownEvent::Html("</span>".to_string());
                let ghost (av, bv, cv) = (a@, b@, c@);
                proof {
                    lemma_views_push(out@, a);
                    lemma_views_push(out@.push(a), b);
                    lemma_views_push(out@.push(a).push(b), c);
                }
                out.push(a);
                out.push(b);
                out.push(c);
                assert(before.push(av).push(bv).push(cv) =~= before + seq![av, bv, cv]);
                Ok(())
            } else {
                Err(RenderError::SourceOffset)
            }
        },
        MarkdownEvent::ImageStart { link_type, dest_url, title, id } => {
            match resolve_image_destination(dest_url, images) {
                Ok(d) => {
                    let a = MarkdownEvent::ImageStart { link_type, dest_url: d, title, id };
                    proof {
                        lemma_views_push(out@, a);
                    }
                    let ghost av = a@;
                    out.push(a);
                    assert(before.push(av) =~= before + seq![av]);
                    Ok(())
                },
                Err(err) => Err(err),
            }
        },
        other => {
            proof {
                lemma_views_push(out@, other);
            }
            let ghost ov = other@;
            out.push(other);
            assert(before.push(ov) =~= before + seq![ov]);
            Ok(())
        },
    }
}

fn reversed(v: Vec<MarkdownEvent>) -> (r: Vec<MarkdownEvent>)
    ensures
        r@.len() == v@.len(),
        forall|k: int| 0 <= k < v@.len() ==> #[trigger] r@[k] == v@[v@.len() - 1 - k],
{
    let ghost orig = v@;
    let mut v = v;
    let mut r: Vec<MarkdownEvent> = Vec::new();
    while v.len() > 0
        invariant
            v@ == orig.take(orig.len() - r@.len()),
            r@.len() <= orig.len(),
            forall|k: int| 0 <= k < r@.len() ==> #[trigger] r@[k] == orig[orig.len() - 1 - k],
        decreases v.len(),
    {
        let x = v.pop().unwrap();
        r.push(x);
    }
    r
}

/// Rewrites the events of a chapter: each text run is wrapped in a span that carries its
/// source range (`source_span_open` of the positions of its range in `markdown`), each
/// image destination is replaced by its resolved workspace path, which must pass the asset
/// path check, and every other event is kept. The first event that cannot be rewritten
/// refuses the chapter.
pub fn rewrite_markdown_events(
    events: Vec<MarkdownEvent>,
    markdown: &str,
    source_file: &str,
    resolved_images: &Vec<ImageResolution>,
) -> (r: Result<Vec<MarkdownEvent>, RenderError>)
    ensures
        match rewrite_events_spec(
            event_views(events@),
            markdown@,
            source_file@,
            resolved_images@,
        ) {
            Ok(v) => r matches Ok(out) && event_views(out@) == v,
            Err(f) => r matches Err(e) && render_fault(e) == Some(f),
        },
{
    let index = SourceLineIndex::new(markdown);
    let ghost all = event_views(events@);
    let ghost md = markdown@;
    let ghost file = source_file@;
    let ghost imgs = resolved_images@;
    let mut out: Vec<MarkdownEvent> = Vec::new();
    let mut rest = reversed(events);
    let ghost n: int = all.len() as int;
    proof {
        assert(event_views(out@) + all =~= all);
        assert(all.skip(0) =~= all);
    }
    while rest.len() > 0
        invariant
            index.well_formed(),
            index.bytes() == vstd::utf8::encode_utf8(md),
            md == markdown@,
            file == source_file@,
            imgs == resolved_images@,
            n == all.len(),
            all == event_views(events@),
            0 <= n - rest@.len() <= n,
            forall|k: int| 0 <= k < rest@.len() ==> (#[trigger] rest@[k])@ == all[n - 1 - k],
            rewrite_events_spec(all, md, file, imgs) == after_prefix(
                event_views(out@),
                rewrite_events_spec(all.skip(n - rest@.len()), md, file, imgs),
            ),
        decreases rest.len(),
    {
        let ghost i = n - rest@.len();
        let ghost before = event_views(out@);
        let e = rest.pop().unwrap();
        assert(e@ == all[i]);
        proof {
            let tail = all.skip(i);
            assert(tail[0] == all[i]);
            assert(tail.drop_first() =~= all.skip(i + 1));
        }
        match rewrite_one(e, &mut out, &index, markdown, source_file, resolved_images) {
            Err(err) => {
                proof {
                    let tail = all.skip(i);
                    assert(rewrite_event(tail[0], md, file, imgs) is Err);
                    assert(rewrite_events_spec(tail, md, file, imgs) == match rewrite_event(
                        tail[0],
                        md,
                        file,
                        imgs,
                    ) {
                        Err(f) => Err::<Seq<MarkdownEventView>, RenderFault>(f),
                        Ok(_) => Err(RenderFault::SourceOffset),
                    });
                }
                return Err(err);
            },
            Ok(_) => {},
        }
        proof {
            let x = event_views(out@).skip(before.len() as int);
            match rewrite_event(all[i], md, file, imgs) {
                Ok(y) => {
                    assert(x =~= y);
                    match rewrite_events_spec(all.skip(i + 1), md, file, imgs) {
                        Ok(tl) => {
                            assert(before + (y + tl) =~= (before + y) + tl);
                        },
                        Err(_) => {},
                    }
                },
                Err(_) => {},
            }
        }
    }
    proof {
        assert(all.skip(n) =~= Seq::<MarkdownEventView>::empty());
        assert(event_views(out@) + Seq::<MarkdownEventView>::empty() =~= event_views(out@));
    }
    Ok(out)
}

/// The destinations of the images among a chapter's events, in order.
pub open spec fn image_destinations_of(events: Seq<MarkdownEventView>) -> Seq<Seq<char>>
    decreases events.len(),
{
    if events.len() == 0 {
        Seq::empty()
    } else {
        let rest = image_destinations_of(events.drop_last());
        match events.last() {
            MarkdownEventView::ImageStart { dest_url, .. } => rest.push(dest_url),
            _ => rest,
        }
    }
}

/// The destinations of the images of a Markdown chapter, in order: what the file system is
/// asked about before the chapter is rendered.
pub fn markdown_image_destinations(markdown: &str) -> (r: Vec<String>)
    ensures
        string_views(r@) == image_destinations_of(markdown_events_of(markdown@)),
{
    let events = markdown_events(markdown);
    let ghost all = event_views(events@);
    let mut r: Vec<String> = Vec::new();
    let mut i: usize = 0;
    assert(all.take(0) =~= Seq::<MarkdownEventView>::empty());
    assert(string_views(r@) =~= Seq::<Seq<char>>::empty());
    while i < events.len()
        invariant
            i <= events@.len(),
            all == event_views(events@),
            string_views(r@) == image_destinations_of(all.take(i as int)),
        decreases events.len() - i,
    {
        assert(all.take(i + 1).drop_last() =~= all.take(i as int));
        assert(all.take(i + 1).last() == events@[i as int]@);
        match &events[i] {
            MarkdownEvent::ImageStart { dest_url, .. } => {
                let d = dest_url.clone();
                assert(string_views(r@.push(d)) =~= string_views(r@).push(d@));
                r.push(d);
            },
            _ => {},
        }
        i = i + 1;
    }
    assert(all.take(events@.len() as int) =~= all);
    r
}

/// Renders a Markdown chapter into HTML: pulldown-cmark's events for it, rewritten (see
/// `rewrite_markdown_events`), written out by pulldown-cmark. `resolved_images` tells what
/// the file system says of the chapter's image destinations.
pub fn markdown_to_html(
    markdown: &str,
    source_file: &str,
    resolved_images: &Vec<ImageResolution>,
) -> (r: Result<String, RenderError>)
    ensures
        match rewrite_events_spec(
            markdown_events_of(markdown@),
            markdown@,
            source_file@,
            resolved_images@,
        ) {
            Ok(v) => r matches Ok(h) && h@ == events_html_of(v),
            Err(f) => r matches Err(e) && render_fault(e) == Some(f),
        },
{
    let events = markdown_events(markdown);
    match rewrite_markdown_events(events, markdown, source_file, resolved_images) {
        Ok(rewritten) => Ok(events_to_html(&rewritten)),
        Err(e) => Err(e),
    }
}

} // verus!
