//! Connection credentials: the cookie header, the identity values parsed
//! out of cookies and the user agent, the request URL, and the process-wide
//! cache of all of them. The debug-endpoint I/O that produces the raw
//! cookies and captured URLs lives outside the library; everything that
//! decides what those bytes mean is verified here.

use vstd::prelude::*;

verus! {

use crate::text::contains_seq;
use crate::text::ends_with_seq;
use crate::text::find_first;
use crate::text::find_sub;
use crate::text::first_token;
use crate::text::first_token_str;
use crate::text::lemma_find_first_bounds;
use crate::text::remove_all;
use crate::text::remove_all_str;
use crate::text::str_ends_with;

/// One cookie as the desktop client's debug endpoint reports it.
#[derive(Debug, PartialEq)]
pub struct CdpCookie {
    pub name: String,
    pub value: String,
    pub domain: String,
}

/// One page as the debug endpoint lists it.
#[derive(Debug, PartialEq)]
pub struct CdpPage {
    /// The page's own URL.
    pub url: String,
    /// The page's debugger socket URL, when it offers one.
    pub ws_url: Option<String>,
}

/// The value of the first cookie with the given name.
pub open spec fn spec_extract_cookie(cs: Seq<CdpCookie>, name: Seq<char>) -> Option<Seq<char>>
    decreases cs.len(),
{
    if cs.len() == 0 {
        None
    } else if cs[0].name@ == name {
        Some(cs[0].value@)
    } else {
        spec_extract_cookie(cs.drop_first(), name)
    }
}

/// Find a cookie by name and hand back its value.
pub fn extract_cookie_value(cookies: &Vec<CdpCookie>, name: &str) -> (r: Option<String>)
    ensures
        r is None ==> spec_extract_cookie(cookies@, name@) is None,
        r matches Some(v) ==> spec_extract_cookie(cookies@, name@) == Some(v@),
{
    let name_s = String::from_str(name);
    assert(cookies@.subrange(0, cookies@.len() as int) =~= cookies@);
    let mut i: usize = 0;
    while i < cookies.len()
        invariant
            i <= cookies@.len(),
            name_s@ == name@,
            spec_extract_cookie(cookies@, name@) == spec_extract_cookie(
                cookies@.subrange(i as int, cookies@.len() as int),
                name@,
            ),
        decreases cookies@.len() - i,
    {
        let ghost rest = cookies@.subrange(i as int, cookies@.len() as int);
        proof {
            assert(rest[0] == cookies@[i as int]);
            assert(rest.drop_first() =~= cookies@.subrange(i + 1, cookies@.len() as int));
        }
        if cookies[i].name.eq(&name_s) {
            return Some(cookies[i].value.clone());
        }
        i += 1;
    }
    proof {
        assert(cookies@.subrange(cookies@.len() as int, cookies@.len() as int).len() == 0);
    }
    None
}

/// The `name=value` header line for the cookies scoped to the service's
/// domain, joined by `; ` in their reported order.
pub open spec fn spec_cookie_header(cs: Seq<CdpCookie>) -> Seq<char>
    decreases cs.len(),
{
    if cs.len() == 0 {
        Seq::empty()
    } else {
        let prev = spec_cookie_header(cs.drop_last());
        let c = cs.last();
        if ends_with_seq(c.domain@, "doubao.com"@) {
            if prev.len() == 0 {
                c.name@ + "="@ + c.value@
            } else {
                prev + "; "@ + c.name@ + "="@ + c.value@
            }
        } else {
            prev
        }
    }
}

/// Build the cookie header a session handshake sends.
pub fn build_cookie_header(cookies: &Vec<CdpCookie>) -> (r: String)
    ensures
        r@ == spec_cookie_header(cookies@),
{
    let mut out = String::new();
    let mut i: usize = 0;
    while i < cookies.len()
        invariant
            i <= cookies@.len(),
            out@ == spec_cookie_header(cookies@.subrange(0, i as int)),
        decreases cookies@.len() - i,
    {
        proof {
            assert(cookies@.subrange(0, i + 1).drop_last() =~= cookies@.subrange(0, i as int));
            assert(cookies@.subrange(0, i + 1).last() == cookies@[i as int]);
        }
        if str_ends_with(cookies[i].domain.as_str(), "doubao.com") {
            if out.as_str().is_empty() {
                out.append(cookies[i].name.as_str());
                out.append("=");
                out.append(cookies[i].value.as_str());
            } else {
                out.append("; ");
                out.append(cookies[i].name.as_str());
                out.append("=");
                out.append(cookies[i].value.as_str());
            }
        }
        i += 1;
    }
    proof {
        assert(cookies@.subrange(0, cookies@.len() as int) =~= cookies@);
    }
    out
}

/// The second segment a marker splits `s` into: the text between the first
/// occurrence of the marker and the next one (or the end). Nothing when
/// the marker does not occur.
pub open spec fn split_second(s: Seq<char>, marker: Seq<char>) -> Option<Seq<char>> {
    let f = find_first(s, marker);
    if f < 0 || f + marker.len() > s.len() {
        None
    } else {
        let rest = s.subrange(f + marker.len(), s.len() as int);
        let g = find_first(rest, marker);
        if g < 0 {
            Some(rest)
        } else {
            Some(rest.subrange(0, g))
        }
    }
}

/// The version token following a marker: the first whitespace-separated
/// token of the segment after the marker's first occurrence, or the
/// default when the marker is absent or no token follows it.
pub open spec fn spec_version_after(s: Seq<char>, marker: Seq<char>, default: Seq<char>) -> Seq<
    char,
> {
    match split_second(s, marker) {
        None => default,
        Some(seg) => {
            let tok = first_token(seg);
            if tok.len() == 0 {
                default
            } else {
                tok
            }
        },
    }
}

fn version_after(s: &str, marker: &str, default: &str) -> (r: String)
    ensures
        r@ == spec_version_after(s@, marker@, default@),
{
    let n = s.unicode_len();
    match find_sub(s, marker) {
        None => {
            proof {
                lemma_find_first_bounds(s@, marker@);
            }
            String::from_str(default)
        },
        Some(f) => {
            proof {
                lemma_find_first_bounds(s@, marker@);
            }
            let m = marker.unicode_len();
            let rest = s.substring_char(f + m, n);
            let seg: &str = match find_sub(rest, marker) {
                None => {
                    proof {
                        lemma_find_first_bounds(rest@, marker@);
                    }
                    rest
                },
                Some(g) => {
                    proof {
                        lemma_find_first_bounds(rest@, marker@);
                    }
                    rest.substring_char(0, g)
                },
            };
            let tok = first_token_str(seg);
            if tok.as_str().is_empty() {
                String::from_str(default)
            } else {
                tok
            }
        },
    }
}

/// Parse the client and engine version tokens out of a user-agent string;
/// fixed fallbacks stand in where a marker is missing.
pub fn parse_user_agent(ua: &str) -> (r: (String, String))
    ensures
        r.0@ == spec_version_after(ua@, "SamanthaDoubao/"@, "1.85.8"@),
        r.1@ == spec_version_after(ua@, "Chrome/"@, "135.0.0.0"@),
{
    let pc = version_after(ua, "SamanthaDoubao/", "1.85.8");
    let chromium = version_after(ua, "Chrome/", "135.0.0.0");
    (pc, chromium)
}

/// The device identity taken from the cookies: `device_id` first, then
/// `tt_webid`, then `s_v_web_id` with every `verify_` struck out, then a
/// fixed fallback.
pub open spec fn spec_device_id(cs: Seq<CdpCookie>) -> Seq<char> {
    match spec_extract_cookie(cs, "device_id"@) {
        Some(v) => v,
        None => match spec_extract_cookie(cs, "tt_webid"@) {
            Some(v) => v,
            None => match spec_extract_cookie(cs, "s_v_web_id"@) {
                Some(v) => remove_all(v, "verify_"@),
                None => "1707977353229076"@,
            },
        },
    }
}

/// The web identity taken from the cookies: `s_v_web_id` with every
/// `verify_` struck out, then `tt_webid`, then a fixed fallback.
pub open spec fn spec_web_id(cs: Seq<CdpCookie>) -> Seq<char> {
    match spec_extract_cookie(cs, "s_v_web_id"@) {
        Some(v) => remove_all(v, "verify_"@),
        None => match spec_extract_cookie(cs, "tt_webid"@) {
            Some(v) => v,
            None => "7589709632207275535"@,
        },
    }
}

/// Extract the device identity from the cookies.
pub fn device_id_from_cookies(cookies: &Vec<CdpCookie>) -> (r: String)
    ensures
        r@ == spec_device_id(cookies@),
{
    match extract_cookie_value(cookies, "device_id") {
        Some(v) => v,
        None => match extract_cookie_value(cookies, "tt_webid") {
            Some(v) => v,
            None => match extract_cookie_value(cookies, "s_v_web_id") {
                Some(v) => {
                    proof {
                        reveal_strlit("verify_");
                    }
                    remove_all_str(v.as_str(), "verify_")
                },
                None => String::from_str("1707977353229076"),
            },
        },
    }
}

/// Extract the web identity from the cookies.
pub fn web_id_from_cookies(cookies: &Vec<CdpCookie>) -> (r: String)
    ensures
        r@ == spec_web_id(cookies@),
{
    match extract_cookie_value(cookies, "s_v_web_id") {
        Some(v) => {
            proof {
                reveal_strlit("verify_");
            }
            remove_all_str(v.as_str(), "verify_")
        },
        None => match extract_cookie_value(cookies, "tt_webid") {
            Some(v) => v,
            None => String::from_str("7589709632207275535"),
        },
    }
}

/// A page of the service's web client with an open chat.
pub open spec fn is_chat_page(u: Seq<char>) -> bool {
    contains_seq(u, "doubao.com"@) && contains_seq(u, "chat"@)
}

/// The first listed page with an open chat, where the session's cookies
/// and request parameters live.
pub fn find_chat_page(pages: &Vec<CdpPage>) -> (r: Option<usize>)
    ensures
        r is None ==> forall|j: int| 0 <= j < pages@.len() ==> !is_chat_page(pages@[j].url@),
        r matches Some(i) ==> i < pages@.len() && is_chat_page(pages@[i as int].url@) && forall|
            j: int,
        | 0 <= j < i ==> !is_chat_page(pages@[j].url@),
{
    let mut i: usize = 0;
    while i < pages.len()
        invariant
            i <= pages@.len(),
            forall|j: int| 0 <= j < i ==> !is_chat_page(pages@[j].url@),
        decreases pages@.len() - i,
    {
        if is_chat_page_url(&pages[i].url) {
            return Some(i);
        }
        i += 1;
    }
    None
}

fn is_chat_page_url(url: &String) -> (r: bool)
    ensures
        r == is_chat_page(url@),
{
    let a = crate::text::contains_sub(url.as_str(), "doubao.com");
    if a {
        crate::text::contains_sub(url.as_str(), "chat")
    } else {
        false
    }
}

/// Whether a created socket URL is the transcription endpoint being
/// captured.
pub fn is_asr_ws_url(url: &str) -> (r: bool)
    ensures
        r == (contains_seq(url@, "samantha"@) && contains_seq(url@, "asr"@)),
{
    let a = crate::text::contains_sub(url, "samantha");
    if a {
        crate::text::contains_sub(url, "asr")
    } else {
        false
    }
}


/// The connection parameters one session borrows for its handshake.
#[derive(Debug, PartialEq)]
pub struct AsrRequestInfo {
    /// The duplex endpoint the session connects to.
    pub url: String,
    /// The user agent the handshake presents.
    pub user_agent: String,
    /// The origin header the handshake presents.
    pub origin: String,
}

/// The fixed fallback endpoint used when nothing was captured.
pub open spec fn default_url_chars() -> Seq<char> {
    "wss://ws-samantha.doubao.com/samantha/audio/asr?version_code=20800&language=zh&device_platform=web&aid=582478&real_aid=582478&format=pcm"@
}

/// The fixed fallback user agent.
pub open spec fn default_user_agent_chars() -> Seq<char> {
    "Mozilla/5.0 (Macintosh; Intel Mac OS X 10_15_7) AppleWebKit/537.36 (KHTML, like Gecko) Chrome/135.0.0.0 Safari/537.36 SamanthaDoubao/1.85.8"@
}

/// The origin every handshake presents.
pub open spec fn origin_chars() -> Seq<char> {
    "https://www.doubao.com"@
}

/// The fallback user agent as an owned string.
pub fn default_user_agent() -> (r: String)
    ensures
        r@ == default_user_agent_chars(),
{
    String::from_str(
        "Mozilla/5.0 (Macintosh; Intel Mac OS X 10_15_7) AppleWebKit/537.36 (KHTML, like Gecko) Chrome/135.0.0.0 Safari/537.36 SamanthaDoubao/1.85.8",
    )
}

impl Clone for AsrRequestInfo {
    /// A copy with the same fields.
    fn clone(&self) -> (r: AsrRequestInfo)
        ensures
            r == *self,
    {
        AsrRequestInfo {
            url: self.url.clone(),
            user_agent: self.user_agent.clone(),
            origin: self.origin.clone(),
        }
    }
}

impl Default for AsrRequestInfo {
    /// The fixed fallback request parameters.
    fn default() -> (r: AsrRequestInfo)
        ensures
            r.url@ == default_url_chars(),
            r.user_agent@ == default_user_agent_chars(),
            r.origin@ == origin_chars(),
    {
        AsrRequestInfo {
            url: String::from_str(
                "wss://ws-samantha.doubao.com/samantha/audio/asr?version_code=20800&language=zh&device_platform=web&aid=582478&real_aid=582478&format=pcm",
            ),
            user_agent: default_user_agent(),
            origin: String::from_str("https://www.doubao.com"),
        }
    }
}

/// Why assembling the connection parameters failed.
#[derive(Debug, Clone, Copy, PartialEq, Eq, Structural)]
pub enum CredentialError {
    /// No cookie scoped to the service's domain was reported.
    NoValidCookies,
}

/// Relies on uuid::Uuid::new_v4 and its hyphenated rendering: a fresh
/// random identity, always 36 characters. The value itself is random, so
/// nothing more is promised of it.
#[verifier::external_body]
fn new_web_tab_id() -> (r: String)
    ensures
        r@.len() == 36,
{
    uuid::Uuid::new_v4().to_string()
}

/// A fresh per-request tab identity for one session URL.
pub fn fresh_tab_id() -> (r: String)
    ensures
        r@.len() == 36,
{
    new_web_tab_id()
}

/// The URL a session connects to, given what was cached and captured: a
/// cached template wins, then a freshly captured one, then the fixed
/// fallback shape — always with this session's identity values in place.
pub open spec fn chosen_url(
    cached_params: Option<crate::params::UrlParams>,
    captured_url: Option<String>,
    cs: Seq<CdpCookie>,
    ua: Seq<char>,
    tab: Seq<char>,
) -> Seq<char> {
    let d = spec_device_id(cs);
    let w = spec_web_id(cs);
    let p = spec_version_after(ua, "SamanthaDoubao/"@, "1.85.8"@);
    let c = spec_version_after(ua, "Chrome/"@, "135.0.0.0"@);
    match cached_params {
        Some(t) => crate::params::spec_template_url(t.entries(), d, w, p, c, tab),
        None => match captured_url {
            Some(u) => crate::params::spec_template_url(
                crate::params::spec_url_params(u@),
                d,
                w,
                p,
                c,
                tab,
            ),
            None => crate::params::spec_default_url(d, w, p, c, tab),
        },
    }
}

/// The user agent a session presents: the reported one, or the fallback.
pub open spec fn ua_chars(user_agent: Option<String>) -> Seq<char> {
    match user_agent {
        Some(u) => u@,
        None => default_user_agent_chars(),
    }
}

/// The process-wide cache of connection credentials: the cookie header,
/// the login state, the assembled request parameters, and the captured URL
/// parameter template. One explicit store, passed by reference into the
/// session, in place of ambient global state.
#[derive(Debug)]
pub struct CredentialStore {
    /// The cached cookie header, once one was fetched.
    pub cookies: Option<String>,
    /// The last observed login state.
    pub login_status: Option<bool>,
    /// The cached request parameters of the last assembled session.
    pub asr_request: Option<AsrRequestInfo>,
    /// The URL parameter template captured from a real request.
    pub url_params: Option<crate::params::UrlParams>,
}

impl CredentialStore {
    /// An empty store: nothing cached yet.
    pub fn new() -> (r: CredentialStore)
        ensures
            r.cookies is None,
            r.login_status is None,
            r.asr_request is None,
            r.url_params is None,
    {
        CredentialStore { cookies: None, login_status: None, asr_request: None, url_params: None }
    }

    /// The cached cookie header, if any.
    pub fn get_cached_cookies(&self) -> (r: Option<String>)
        ensures
            r == self.cookies,
    {
        match &self.cookies {
            None => None,
            Some(c) => Some(c.clone()),
        }
    }

    /// Remember a freshly fetched cookie header.
    pub fn set_cached_cookies(&mut self, header: String)
        ensures
            final(self).cookies == Some(header),
            final(self).login_status == old(self).login_status,
            final(self).asr_request == old(self).asr_request,
            final(self).url_params == old(self).url_params,
    {
        self.cookies = Some(header);
    }

    /// Drop the cached cookie header, so the next session re-fetches.
    pub fn clear_cached_cookies(&mut self)
        ensures
            final(self).cookies is None,
            final(self).login_status == old(self).login_status,
            final(self).asr_request == old(self).asr_request,
            final(self).url_params == old(self).url_params,
    {
        self.cookies = None;
    }

    /// The last observed login state, if any.
    pub fn get_cached_login_status(&self) -> (r: Option<bool>)
        ensures
            r == self.login_status,
    {
        self.login_status
    }

    /// Remember the observed login state.
    pub fn set_cached_login_status(&mut self, status: bool)
        ensures
            final(self).login_status == Some(status),
            final(self).cookies == old(self).cookies,
            final(self).asr_request == old(self).asr_request,
            final(self).url_params == old(self).url_params,
    {
        self.login_status = Some(status);
    }

    /// The cached request parameters, if any.
    pub fn get_cached_asr_request(&self) -> (r: Option<AsrRequestInfo>)
        ensures
            r == self.asr_request,
    {
        match &self.asr_request {
            None => None,
            Some(i) => Some(i.clone()),
        }
    }

    /// Remember assembled request parameters.
    pub fn set_cached_asr_request(&mut self, info: AsrRequestInfo)
        ensures
            final(self).asr_request == Some(info),
            final(self).cookies == old(self).cookies,
            final(self).login_status == old(self).login_status,
            final(self).url_params == old(self).url_params,
    {
        self.asr_request = Some(info);
    }

    /// The captured URL parameter template, if any.
    pub fn get_cached_url_params(&self) -> (r: Option<crate::params::UrlParams>)
        ensures
            r is None <==> self.url_params is None,
            r matches Some(p) ==> (self.url_params matches Some(q) && p.entries() == q.entries()),
    {
        match &self.url_params {
            None => None,
            Some(p) => Some(p.clone()),
        }
    }

    /// Remember a captured URL parameter template.
    pub fn set_cached_url_params(&mut self, params: crate::params::UrlParams)
        ensures
            final(self).url_params == Some(params),
            final(self).cookies == old(self).cookies,
            final(self).login_status == old(self).login_status,
            final(self).asr_request == old(self).asr_request,
    {
        self.url_params = Some(params);
    }

    /// Drop the captured template, so the next session re-captures.
    pub fn clear_cached_url_params(&mut self)
        ensures
            final(self).url_params is None,
            final(self).cookies == old(self).cookies,
            final(self).login_status == old(self).login_status,
            final(self).asr_request == old(self).asr_request,
    {
        self.url_params = None;
    }

    /// The request parameters a session starts from: the cached ones, or
    /// the fixed fallback.
    pub fn get_asr_request_info(&self) -> (r: AsrRequestInfo)
        ensures
            self.asr_request matches Some(i) ==> r == i,
            self.asr_request is None ==> r.url@ == default_url_chars() && r.user_agent@
                == default_user_agent_chars() && r.origin@ == origin_chars(),
    {
        match &self.asr_request {
            Some(i) => i.clone(),
            None => AsrRequestInfo::default(),
        }
    }

    /// Whether a session can start from cache alone, with no fresh capture.
    pub fn is_available_cached(&self) -> (r: bool)
        ensures
            r == (self.cookies is Some && self.url_params is Some),
    {
        self.cookies.is_some() && self.url_params.is_some()
    }

    /// Assemble one session's connection parameters from freshly fetched
    /// cookies, the reported user agent, and a captured request URL when
    /// one exists, caching everything a later session can reuse. Fails
    /// exactly when no cookie is scoped to the service's domain, leaving
    /// the store untouched.
    pub fn assemble_asr_info(
        &mut self,
        cookies: &Vec<CdpCookie>,
        user_agent: Option<String>,
        captured_url: Option<String>,
        web_tab_id: &str,
    ) -> (r: Result<(String, AsrRequestInfo), CredentialError>)
        ensures
            spec_cookie_header(cookies@).len() == 0 ==> (r matches Err(e) && e
                == CredentialError::NoValidCookies && *final(self) == *old(self)),
            spec_cookie_header(cookies@).len() > 0 ==> (r matches Ok(ok) && ok.0@
                == spec_cookie_header(cookies@) && ok.1.url@ == chosen_url(
                old(self).url_params,
                captured_url,
                cookies@,
                ua_chars(user_agent),
                web_tab_id@,
            ) && ok.1.user_agent@ == ua_chars(user_agent) && ok.1.origin@ == origin_chars()
                && final(self).asr_request == Some(ok.1)),
            spec_cookie_header(cookies@).len() > 0 ==> (final(self).cookies matches Some(h) && h@
                == spec_cookie_header(cookies@)),
            spec_cookie_header(cookies@).len() > 0 ==> final(self).login_status == old(self).login_status,
            spec_cookie_header(cookies@).len() > 0 && old(self).url_params is Some ==> final(self).url_params == old(self).url_params,
            spec_cookie_header(cookies@).len() > 0 && old(self).url_params is None ==> (
            captured_url matches Some(u) ==> (final(self).url_params matches Some(q)
                && q.entries() == crate::params::spec_url_params(u@))),
            spec_cookie_header(cookies@).len() > 0 && old(self).url_params is None
                && captured_url is None ==> final(self).url_params is None,
    {
        let header = build_cookie_header(cookies);
        if header.as_str().is_empty() {
            return Err(CredentialError::NoValidCookies);
        }
        self.cookies = Some(header.clone());
        let device_id = device_id_from_cookies(cookies);
        let web_id = web_id_from_cookies(cookies);
        let ua: String = match user_agent {
            Some(u) => u,
            None => default_user_agent(),
        };
        let versions = parse_user_agent(ua.as_str());
        let url: String = if self.url_params.is_some() {
            match &self.url_params {
                Some(t) => crate::params::build_asr_url_from_template(
                    t,
                    device_id.as_str(),
                    web_id.as_str(),
                    versions.0.as_str(),
                    versions.1.as_str(),
                    web_tab_id,
                ),
                None => String::new(),
            }
        } else {
            match captured_url {
                Some(cu) => {
                    let params = crate::params::parse_asr_url_params(cu.as_str());
                    let u = crate::params::build_asr_url_from_template(
                        &params,
                        device_id.as_str(),
                        web_id.as_str(),
                        versions.0.as_str(),
                        versions.1.as_str(),
                        web_tab_id,
                    );
                    self.url_params = Some(params);
                    u
                },
                None => crate::params::build_asr_url(
                    device_id.as_str(),
                    web_id.as_str(),
                    versions.0.as_str(),
                    versions.1.as_str(),
                    web_tab_id,
                ),
            }
        };
        let info = AsrRequestInfo { url, user_agent: ua, origin: String::from_str(
            "https://www.doubao.com",
        ) };
        self.asr_request = Some(info.clone());
        Ok((header, info))
    }
}

} // verus!

