//! The favicon pipeline as a machine of steps. The library decides what is to
//! be fetched next and what a response amounts to; the caller makes the
//! requests, rasterises vector icons, and hands back what came of it.
//!
//! A resolution starts with `begin`. While the step is `Fetch`, the caller
//! gets the URL and passes the outcome to `on_response` with the stage the
//! step named. On `Rasterize` it renders the drawing and passes the outcome
//! to `on_rendered`. `Done` and `Failed` end the resolution.

use crate::adapters::{has_png_signature, transcode_png, Transcoded, TranscodedView};
use crate::error::{Error, ErrorView};
use crate::http::{response_view, ResponseView};
use crate::icons::{choose_icon, html_of, page_icon, read_html};
use crate::text::{chars_of, contains, str_contains, string_of};
use crate::url::{base_url, normalize_base_url};
use vstd::prelude::*;

verus! {

/// The side of the square, in pixels, that a vector icon is rendered to.
pub const ICON_SIDE: u32 = 256;

/// Which response a resolution is waiting for.
#[derive(Debug, PartialEq, Eq)]
pub enum Stage {
    /// That of the well-known icon path under `base`.
    Direct { base: String },
    /// That of the site's page at `base`.
    Page { base: String },
    /// That of the icon chosen from the page.
    Candidate { is_svg: bool },
}

/// A `Stage` as plain values.
pub enum StageView {
    Direct { base: Seq<char> },
    Page { base: Seq<char> },
    Candidate { is_svg: bool },
}

impl View for Stage {
    type V = StageView;

    open spec fn view(&self) -> StageView {
        match self {
            Stage::Direct { base } => StageView::Direct { base: base@ },
            Stage::Page { base } => StageView::Page { base: base@ },
            Stage::Candidate { is_svg } => StageView::Candidate { is_svg: *is_svg },
        }
    }
}

/// What is to happen next in a resolution.
#[derive(Debug, PartialEq, Eq)]
pub enum Step {
    /// Get `url` and report the outcome with `stage`.
    Fetch { url: String, stage: Stage },
    /// Render the vector drawing `svg` to a PNG that fills a square of
    /// `ICON_SIDE` pixels, and report the outcome.
    Rasterize { svg: Vec<u8> },
    /// The icon, as PNG.
    Done { png: Vec<u8> },
    /// No icon could be had.
    Failed { error: Error },
}

/// A `Step` as plain values.
pub enum StepView {
    Fetch { url: Seq<char>, stage: StageView },
    Rasterize { svg: Seq<u8> },
    Done { png: Seq<u8> },
    Failed { error: ErrorView },
}

impl View for Step {
    type V = StepView;

    open spec fn view(&self) -> StepView {
        match self {
            Step::Fetch { url, stage } => StepView::Fetch { url: url@, stage: stage@ },
            Step::Rasterize { svg } => StepView::Rasterize { svg: svg@ },
            Step::Done { png } => StepView::Done { png: png@ },
            Step::Failed { error } => StepView::Failed { error: error@ },
        }
    }
}

/// The well-known icon path under `base`.
pub open spec fn favicon_url(base: Seq<char>) -> Seq<char> {
    base + "/favicon.ico"@
}

/// The first step for a site: its well-known icon path is tried.
pub open spec fn first_step(url: Seq<char>) -> StepView {
    StepView::Fetch {
        url: favicon_url(base_url(url)),
        stage: StageView::Direct { base: base_url(url) },
    }
}

/// The step that turns to the site's page.
pub open spec fn page_step(base: Seq<char>) -> StepView {
    StepView::Fetch { url: base, stage: StageView::Page { base } }
}

/// What transcoding can give at all: where it gives a PNG, the bytes begin
/// with the PNG signature.
pub open spec fn is_outcome(t: TranscodedView) -> bool {
    t matches TranscodedView::Png(png) ==> has_png_signature(png)
}

/// Whether the step after a response hangs on transcoding its body: it does
/// for an answer of the well-known icon path that was not served as HTML,
/// and for a chosen icon that is no vector drawing.
pub open spec fn wants_transcoding(stage: StageView, response: ResponseView) -> bool {
    match (stage, response) {
        (StageView::Direct { .. }, Ok((_, content_type))) => !contains(content_type, "text/html"@),
        (StageView::Candidate { is_svg }, Ok((_, content_type))) => !is_vector(is_svg, content_type),
        _ => false,
    }
}

/// The PNG that came of transcoding, or the error: `undecodable` where the
/// bytes were no image, the encoder's message where writing failed.
pub open spec fn raster_outcome(t: TranscodedView, undecodable: ErrorView) -> Result<
    Seq<u8>,
    ErrorView,
> {
    match t {
        TranscodedView::Png(png) => Ok(png),
        TranscodedView::Undecodable => Err(undecodable),
        TranscodedView::Unencodable(m) => Err(ErrorView::Encode(m)),
    }
}

/// What the well-known icon path gave, where transcoding its body gives `t`:
/// an answer served as HTML is no icon, whatever its bytes; of any other,
/// what came of the transcoding.
pub open spec fn direct_outcome(content_type: Seq<char>, t: TranscodedView) -> Result<
    Seq<u8>,
    ErrorView,
> {
    if contains(content_type, "text/html"@) {
        Err(ErrorView::NotBitmap)
    } else {
        raster_outcome(t, ErrorView::DecodeFailed)
    }
}

/// The step that ends a resolution with `r`.
pub open spec fn final_step(r: Result<Seq<u8>, ErrorView>) -> StepView {
    match r {
        Ok(png) => StepView::Done { png },
        Err(error) => StepView::Failed { error },
    }
}

/// The step after the response to the well-known icon path, where
/// transcoding its body gives `t`: done where it gave an icon; else the page
/// is tried, and the failure is forgotten.
pub open spec fn after_direct(base: Seq<char>, response: ResponseView, t: TranscodedView) -> StepView {
    match response {
        Ok((body, content_type)) => match direct_outcome(content_type, t) {
            Ok(png) => StepView::Done { png },
            Err(_) => page_step(base),
        },
        Err(_) => page_step(base),
    }
}

/// The step after the response to the page: the icon it names is fetched,
/// or the resolution fails with what went wrong.
pub open spec fn after_page(base: Seq<char>, response: ResponseView) -> StepView {
    match response {
        Err(error) => StepView::Failed { error },
        Ok((body, content_type)) => match html_of(content_type, body) {
            Err(error) => StepView::Failed { error },
            Ok(html) => match page_icon(base, html) {
                Err(error) => StepView::Failed { error },
                Ok(c) => StepView::Fetch {
                    url: c.url,
                    stage: StageView::Candidate { is_svg: c.is_svg },
                },
            },
        },
    }
}

/// Whether a fetched icon is a vector drawing: it was named with `.svg`, or
/// it was served with a content type that holds `svg`.
pub open spec fn is_vector(is_svg: bool, content_type: Seq<char>) -> bool {
    is_svg || contains(content_type, "svg"@)
}

/// The step after the response to the chosen icon, where transcoding its
/// body gives `t`: a vector drawing goes to be rendered as it came; of a
/// bitmap, what came of the transcoding.
pub open spec fn after_candidate(is_svg: bool, response: ResponseView, t: TranscodedView) -> StepView {
    match response {
        Err(error) => StepView::Failed { error },
        Ok((body, content_type)) => if is_vector(is_svg, content_type) {
            StepView::Rasterize { svg: body }
        } else {
            final_step(raster_outcome(t, ErrorView::UndecodableIcon))
        },
    }
}

/// The step after a response, by the stage that waited for it, where
/// transcoding the body gives `t`. What the page gives does not hang on `t`.
pub open spec fn after_response(
    stage: StageView,
    response: ResponseView,
    t: TranscodedView,
) -> StepView {
    match stage {
        StageView::Direct { base } => after_direct(base, response, t),
        StageView::Page { base } => after_page(base, response),
        StageView::Candidate { is_svg } => after_candidate(is_svg, response, t),
    }
}

/// The step after rendering: the PNG, or the renderer's message as the error.
pub open spec fn after_render(rendered: Result<Seq<u8>, Seq<char>>) -> StepView {
    match rendered {
        Ok(png) => StepView::Done { png },
        Err(m) => StepView::Failed { error: ErrorView::Render(m) },
    }
}

/// The view of a PNG or an error.
pub open spec fn bytes_result_view(r: Result<Vec<u8>, Error>) -> Result<Seq<u8>, ErrorView> {
    match r {
        Ok(b) => Ok(b@),
        Err(e) => Err(e@),
    }
}

/// The view of what a renderer handed back.
pub open spec fn rendered_view(r: Result<Vec<u8>, String>) -> Result<Seq<u8>, Seq<char>> {
    match r {
        Ok(b) => Ok(b@),
        Err(m) => Err(m@),
    }
}

/// The well-known icon path cannot fail a resolution: whatever it answers,
/// the icon is there or the page is tried next.
pub proof fn lemma_direct_failure_is_absorbed(
    base: Seq<char>,
    response: ResponseView,
    t: TranscodedView,
)
    ensures
        after_direct(base, response, t) is Done || after_direct(base, response, t) == page_step(
            base,
        ),
{
}

/// An answer served as HTML is never taken for the icon: the page is tried
/// next, whatever the body holds.
pub proof fn lemma_html_is_no_favicon(
    base: Seq<char>,
    content_type: Seq<char>,
    body: Seq<u8>,
    t: TranscodedView,
)
    requires
        contains(content_type, "text/html"@),
    ensures
        direct_outcome(content_type, t) == Err::<Seq<u8>, ErrorView>(ErrorView::NotBitmap),
        after_response(StageView::Direct { base }, Ok((body, content_type)), t) == page_step(base),
{
}

/// Where the page is reached and fails, its error is the one reported.
pub proof fn lemma_page_error_is_surfaced(base: Seq<char>, response: ResponseView)
    ensures
        response matches Err(e) ==> after_page(base, response) == (StepView::Failed { error: e }),
        after_page(base, response) is Failed || after_page(base, response) is Fetch,
{
}

/// Where the step does not hang on transcoding, it is the same whatever
/// outcome is put in.
pub proof fn lemma_step_without_transcoding(
    stage: StageView,
    response: ResponseView,
    t1: TranscodedView,
    t2: TranscodedView,
)
    requires
        !wants_transcoding(stage, response),
    ensures
        after_response(stage, response, t1) == after_response(stage, response, t2),
{
}

/// A resolution ends well only with what transcoding made: the icon of a
/// finished step begins with the PNG signature.
pub proof fn lemma_done_is_png(stage: StageView, response: ResponseView, t: TranscodedView)
    requires
        is_outcome(t),
    ensures
        after_response(stage, response, t) matches StepView::Done { png } ==> has_png_signature(
            png,
        ),
{
}

/// Turns what came of transcoding into the PNG or the error.
pub fn raster_result(t: Transcoded, undecodable: Error) -> (r: Result<Vec<u8>, Error>)
    ensures
        bytes_result_view(r) == raster_outcome(t@, undecodable@),
{
    match t {
        Transcoded::Png(png) => Ok(png),
        Transcoded::Undecodable => Err(undecodable),
        Transcoded::Unencodable(m) => Err(Error::Encode(m)),
    }
}

/// Judges the answer of the well-known icon path, given what transcoding
/// its body gave.
pub fn direct_result(content_type: &str, t: Transcoded) -> (r: Result<Vec<u8>, Error>)
    ensures
        bytes_result_view(r) == direct_outcome(content_type@, t@),
{
    if str_contains(content_type, "text/html") {
        return Err(Error::NotBitmap);
    }
    raster_result(t, Error::DecodeFailed)
}

/// Judges the answer of the well-known icon path. An answer served as HTML
/// is refused without a look at its bytes; any other is transcoded, and
/// the result is what `direct_outcome` makes of whatever came of that. An
/// icon that comes back is a PNG.
pub fn try_favicon_ico(content_type: &str, body: &Vec<u8>) -> (r: Result<Vec<u8>, Error>)
    ensures
        exists|t: TranscodedView|
            is_outcome(t) && bytes_result_view(r) == direct_outcome(content_type@, t),
        contains(content_type@, "text/html"@) ==> bytes_result_view(r) == Err::<
            Seq<u8>,
            ErrorView,
        >(ErrorView::NotBitmap),
        r matches Ok(png) ==> has_png_signature(png@),
{
    if str_contains(content_type, "text/html") {
        assert(is_outcome(TranscodedView::Undecodable) && direct_outcome(
            content_type@,
            TranscodedView::Undecodable,
        ) == Err::<Seq<u8>, ErrorView>(ErrorView::NotBitmap));
        return Err(Error::NotBitmap);
    }
    let t = transcode_png(body);
    let ghost outcome = t@;
    let r = direct_result(content_type, t);
    assert(is_outcome(outcome) && bytes_result_view(r) == direct_outcome(content_type@, outcome));
    r
}

/// Starts a resolution for the site at `url`.
pub fn begin(url: &str) -> (r: Step)
    ensures
        r@ == first_step(url@),
{
    let base = normalize_base_url(url);
    let mut target = chars_of(base.as_str());
    let mut path = chars_of("/favicon.ico");
    target.append(&mut path);
    Step::Fetch { url: string_of(&target), stage: Stage::Direct { base } }
}

/// Whether the step after `response` at `stage` hangs on transcoding the body.
pub fn needs_transcoding(stage: &Stage, response: &Result<(Vec<u8>, String), Error>) -> (r: bool)
    ensures
        r == wants_transcoding(stage@, response_view(*response)),
{
    match (stage, response) {
        (Stage::Direct { .. }, Ok((_, content_type))) => !str_contains(
            content_type.as_str(),
            "text/html",
        ),
        (Stage::Candidate { is_svg }, Ok((_, content_type))) => !(*is_svg || str_contains(
            content_type.as_str(),
            "svg",
        )),
        _ => false,
    }
}

/// The next step, given the stage that waited, the response that came, and
/// what transcoding its body gave.
pub fn step_given(stage: Stage, response: Result<(Vec<u8>, String), Error>, t: Transcoded) -> (r:
    Step)
    ensures
        r@ == after_response(stage@, response_view(response), t@),
{
    match stage {
        Stage::Direct { base } => {
            let found = match response {
                Ok((_, content_type)) => direct_result(content_type.as_str(), t),
                Err(e) => Err(e),
            };
            match found {
                Ok(png) => Step::Done { png },
                Err(_) => Step::Fetch { url: base.clone(), stage: Stage::Page { base } },
            }
        },
        Stage::Page { base } => {
            let (body, content_type) = match response {
                Ok(pair) => pair,
                Err(error) => {
                    return Step::Failed { error };
                },
            };
            let html = match read_html(content_type.as_str(), body) {
                Ok(html) => html,
                Err(error) => {
                    return Step::Failed { error };
                },
            };
            match choose_icon(base.as_str(), html.as_str()) {
                Ok(c) => Step::Fetch { url: c.url, stage: Stage::Candidate { is_svg: c.is_svg } },
                Err(error) => Step::Failed { error },
            }
        },
        Stage::Candidate { is_svg } => {
            let (body, content_type) = match response {
                Ok(pair) => pair,
                Err(error) => {
                    return Step::Failed { error };
                },
            };
            if is_svg || str_contains(content_type.as_str(), "svg") {
                Step::Rasterize { svg: body }
            } else {
                match raster_result(t, Error::UndecodableIcon) {
                    Ok(png) => Step::Done { png },
                    Err(error) => Step::Failed { error },
                }
            }
        },
    }
}

/// The next step, given the stage that waited and the response that came.
/// The body is transcoded only where the step hangs on it, and the step is
/// what `after_response` makes of whatever came of that; the step after the
/// page hangs on no transcoding. An icon that ends the resolution is a PNG.
pub fn on_response(stage: Stage, response: Result<(Vec<u8>, String), Error>) -> (r: Step)
    ensures
        exists|t: TranscodedView|
            is_outcome(t) && r@ == after_response(stage@, response_view(response), t),
        stage@ matches StageView::Page { base } ==> r@ == after_page(base, response_view(response)),
        r matches Step::Done { png } ==> has_png_signature(png@),
{
    let t = match &response {
        Ok((body, _)) => {
            if needs_transcoding(&stage, &response) {
                transcode_png(body)
            } else {
                Transcoded::Undecodable
            }
        },
        Err(_) => Transcoded::Undecodable,
    };
    let ghost outcome = t@;
    let r = step_given(stage, response, t);
    assert(is_outcome(outcome) && r@ == after_response(stage@, response_view(response), outcome));
    r
}

/// The last step, given what the renderer made of a vector drawing.
pub fn on_rendered(rendered: Result<Vec<u8>, String>) -> (r: Step)
    ensures
        r@ == after_render(rendered_view(rendered)),
{
    match rendered {
        Ok(png) => Step::Done { png },
        Err(m) => Step::Failed { error: Error::Render(m) },
    }
}

/// What is to be done for an app's icon on first sight of its site: nothing
/// where an icon is already stored, else a resolution from its first step.
pub open spec fn fetch_plan(icon_exists: bool, url: Seq<char>) -> Option<StepView> {
    if icon_exists {
        None
    } else {
        Some(first_step(url))
    }
}

/// The view of an optional step.
pub open spec fn plan_view(p: Option<Step>) -> Option<StepView> {
    match p {
        Some(s) => Some(s@),
        None => None,
    }
}

/// Plans the icon lookup for an app whose icon may be stored already. With
/// an icon there, nothing is to be fetched; a second call after a resolution
/// succeeded and was stored therefore asks for no request.
pub fn fetch_site_icon(icon_exists: bool, url: &str) -> (r: Option<Step>)
    ensures
        plan_view(r) == fetch_plan(icon_exists, url@),
        icon_exists ==> r is None,
        !icon_exists ==> (r matches Some(s) && s is Fetch),
{
    if icon_exists {
        None
    } else {
        Some(begin(url))
    }
}

/// Plans the icon lookup that replaces whatever is stored: it always starts
/// with a request.
pub fn refresh_site_icon(url: &str) -> (r: Step)
    ensures
        r@ == first_step(url@),
        r is Fetch,
{
    begin(url)
}

/// The PNG to store for image bytes that the user supplied: the bytes are
/// transcoded, and the result is what `raster_outcome` makes of whatever
/// came of that, bytes that are no image being refused as `InvalidImage`.
/// What is to be stored is a PNG.
pub fn save_app_icon(icon_bytes: &Vec<u8>) -> (r: Result<Vec<u8>, Error>)
    ensures
        exists|t: TranscodedView|
            is_outcome(t) && bytes_result_view(r) == raster_outcome(t, ErrorView::InvalidImage),
        r matches Ok(png) ==> has_png_signature(png@),
{
    let t = transcode_png(icon_bytes);
    let ghost outcome = t@;
    let r = raster_result(t, Error::InvalidImage);
    assert(is_outcome(outcome) && bytes_result_view(r) == raster_outcome(
        outcome,
        ErrorView::InvalidImage,
    ));
    r
}

} // verus!
