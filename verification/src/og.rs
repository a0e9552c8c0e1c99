//! Link previews: the Open Graph title, description and image of a page.
use vstd::prelude::*;
use crate::error::{AppError, ErrorKind};
use crate::text::{owned, str_starts_with};
use crate::retro_dto::opt_view;

verus! {

/// How long fetching a page may take, in seconds.
pub const REQUEST_TIMEOUT_SECS: u64 = 5;

/// The user agent pages are fetched with.
pub const USER_AGENT: &'static str = "Mozilla/5.0 (compatible; MoalogBot/1.0)";

/// Query of a preview request.
#[derive(Debug)]
pub struct OgMetadataQuery {
    pub url: String,
}

impl OgMetadataQuery {
    /// The link must have 1 to 2048 characters.
    pub fn validate(&self) -> (r: Result<(), AppError>)
        ensures
            r is Ok <==> (1 <= self.url@.len() <= 2048),
            r matches Err(e) ==> e@ == (ErrorKind::ValidationError, "URL은 1자 이상 2,048자 이하여야 합니다"@),
    {
        let n = self.url.as_str().unicode_len();
        if n < 1 || n > 2048 {
            Err(AppError::ValidationError(owned("URL은 1자 이상 2,048자 이하여야 합니다")))
        } else {
            Ok(())
        }
    }
}

/// The preview of a page.
#[derive(Debug)]
pub struct OgMetadataResponse {
    pub url: String,
    pub title: Option<String>,
    pub description: Option<String>,
    pub image: Option<String>,
}

#[derive(Debug)]
pub struct SuccessOgMetadataResponse {
    pub is_success: bool,
    pub code: String,
    pub message: String,
    pub result: OgMetadataResponse,
}

/// The Open Graph values found in a page.
#[derive(Debug)]
pub struct OgTags {
    pub title: Option<String>,
    pub description: Option<String>,
    pub image: Option<String>,
}

/// The `content` of the first `meta` element whose `property` is `property`,
/// in the page `html` as `scraper` parses it.
pub uninterp spec fn scraped_meta_content(html: Seq<char>, property: Seq<char>) -> Option<Seq<char>>;

/// Reads one Open Graph value with `scraper`: it parses the page with
/// `Html::parse_document`, selects `meta[property="..."]` and takes the
/// `content` attribute of the first match. The result is named
/// `scraped_meta_content`.
#[verifier::external_body]
fn meta_content(html: &str, property: &str) -> (r: Option<String>)
    ensures
        opt_view(&r) == scraped_meta_content(html@, property@),
{
    let document = scraper::Html::parse_document(html);
    let selector = scraper::Selector::parse(&format!("meta[property=\"{}\"]", property)).ok()?;
    let element = document.select(&selector).next()?;
    let content = element.value().attr("content")?;
    Some(content.to_string())
}

/// Whether a link is fetched at all: it must start with `http://` or `https://`.
pub open spec fn fetchable_url(url: Seq<char>) -> bool {
    crate::text::starts_with(url, "http://"@) || crate::text::starts_with(url, "https://"@)
}

/// Link previews.
pub struct OgService;

impl OgService {
    /// Whether the link uses the web's schemes.
    pub fn is_valid_url(url: &str) -> (b: bool)
        ensures
            b == fetchable_url(url@),
    {
        str_starts_with(url, "http://") || str_starts_with(url, "https://")
    }

    /// Refuses a link that `is_valid_url` refuses.
    pub fn check_url(url: &str) -> (r: Result<(), AppError>)
        ensures
            r is Ok <==> fetchable_url(url@),
            r matches Err(e) ==> e@ == (ErrorKind::BadRequest, "유효하지 않은 URL 형식입니다."@),
    {
        if OgService::is_valid_url(url) {
            Ok(())
        } else {
            Err(AppError::BadRequest(owned("유효하지 않은 URL 형식입니다.")))
        }
    }

    /// The Open Graph title, description and image of a page.
    pub fn parse_og_tags(html: &str) -> (r: OgTags)
        ensures
            opt_view(&r.title) == scraped_meta_content(html@, "og:title"@),
            opt_view(&r.description) == scraped_meta_content(html@, "og:description"@),
            opt_view(&r.image) == scraped_meta_content(html@, "og:image"@),
    {
        OgTags {
            title: meta_content(html, "og:title"),
            description: meta_content(html, "og:description"),
            image: meta_content(html, "og:image"),
        }
    }

    /// The preview of a page that could not be read: the link alone.
    pub fn fallback_response(url: &str) -> (r: OgMetadataResponse)
        ensures
            r.url@ == url@,
            r.title is None,
            r.description is None,
            r.image is None,
    {
        OgMetadataResponse { url: owned(url), title: None, description: None, image: None }
    }

    /// The preview of a link from what fetching it gave: a refused link is an
    /// error, a page that could not be fetched gives the fallback, and a
    /// fetched page gives its Open Graph values.
    pub fn metadata_from_fetch(url: &str, fetched: Option<&str>) -> (r: Result<OgMetadataResponse, AppError>)
        ensures
            !fetchable_url(url@) ==> (r matches Err(e) && e@ == (ErrorKind::BadRequest, "유효하지 않은 URL 형식입니다."@)),
            fetchable_url(url@) ==> (r matches Ok(m) && m.url@ == url@ && match fetched {
                None => m.title is None && m.description is None && m.image is None,
                Some(html) => opt_view(&m.title) == scraped_meta_content(html@, "og:title"@)
                    && opt_view(&m.description) == scraped_meta_content(html@, "og:description"@)
                    && opt_view(&m.image) == scraped_meta_content(html@, "og:image"@),
            }),
    {
        match OgService::check_url(url) {
            Err(e) => Err(e),
            Ok(()) => match fetched {
                None => Ok(OgService::fallback_response(url)),
                Some(html) => {
                    let tags = OgService::parse_og_tags(html);
                    Ok(OgMetadataResponse {
                        url: owned(url),
                        title: tags.title,
                        description: tags.description,
                        image: tags.image,
                    })
                },
            },
        }
    }
}

} // verus!
