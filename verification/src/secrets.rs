use vstd::prelude::*;

verus! {

/// Capture group 1 of the leftmost-first match of the regular expression `pattern`
/// in `haystack`; nothing where the pattern does not compile or does not match.
pub uninterp spec fn regex_first_group(pattern: Seq<char>, haystack: Seq<char>) -> Option<Seq<char>>;

/// Compiles `pattern` with `regex::Regex::new`, finds the leftmost-first match in
/// `haystack` with `Regex::captures` and gives the text of its capture group 1. The
/// result is named `regex_first_group(pattern, haystack)`; what a pattern matches is
/// not stated.
#[verifier::external_body]
fn first_capture(pattern: &str, haystack: &str) -> (res: Option<String>)
    ensures
        match res {
            Some(s) => regex_first_group(pattern@, haystack@) == Some(s@),
            None => regex_first_group(pattern@, haystack@) is None,
        },
{
    let re = regex::Regex::new(pattern).ok()?;
    let caps = re.captures(haystack)?;
    caps.get(1).map(|m| m.as_str().to_string())
}

/// The pattern of the AES key `ccz` in a comic page.
pub open spec fn ccz_pattern() -> Seq<char> {
    r"var\s+ccz\s*=\s*'([^']+)'"@
}

/// The pattern of the `dnt` field in a comic page.
pub open spec fn dnt_pattern() -> Seq<char> {
    r#"id="dnt"[^>]*value="([^"]*)""#@
}

/// The pattern of the AES key `cct` in a chapter page.
pub open spec fn cct_pattern() -> Seq<char> {
    r"var\s+cct\s*=\s*'([^']+)'"@
}

/// The pattern of the encrypted page list `contentKey` in a chapter page.
pub open spec fn content_key_pattern() -> Seq<char> {
    r"var\s+contentKey\s*=\s*'([^']+)'"@
}

/// A secret that a page should hold and does not.
#[derive(Debug, Clone, Copy, PartialEq, Eq)]
pub enum SecretError {
    /// The comic page has no `ccz` key (the site may have changed its scheme).
    MissingPageKey,
    /// The chapter page has no `cct` key (the site may have changed its scheme).
    MissingChapterKey,
    /// The chapter page has no `contentKey`.
    MissingContentKey,
}

/// The key and the `dnts` value of a comic page: the key is required, `dnts` is
/// `3` where the page has none.
pub open spec fn page_secrets(html: Seq<char>) -> Result<(Seq<char>, Seq<char>), SecretError> {
    match regex_first_group(ccz_pattern(), html) {
        None => Err(SecretError::MissingPageKey),
        Some(key) => Ok((key, match regex_first_group(dnt_pattern(), html) {
            Some(d) => d,
            None => "3"@,
        })),
    }
}

/// The AES key and the encrypted page list of a chapter page, both required.
pub open spec fn chapter_secrets(html: Seq<char>) -> Result<(Seq<char>, Seq<char>), SecretError> {
    match regex_first_group(cct_pattern(), html) {
        None => Err(SecretError::MissingChapterKey),
        Some(cct) => match regex_first_group(content_key_pattern(), html) {
            None => Err(SecretError::MissingContentKey),
            Some(content) => Ok((cct, content)),
        },
    }
}

/// Takes the AES key (`ccz`) and the `dnts` value out of a comic page.
pub fn extract_page_secrets(html: &str) -> (res: Result<(String, String), SecretError>)
    ensures
        match res {
            Ok((key, dnts)) => page_secrets(html@) == Ok::<(Seq<char>, Seq<char>), SecretError>((key@, dnts@)),
            Err(e) => page_secrets(html@) == Err::<(Seq<char>, Seq<char>), SecretError>(e),
        },
{
    let key = match first_capture(r"var\s+ccz\s*=\s*'([^']+)'", html) {
        Some(k) => k,
        None => {
            return Err(SecretError::MissingPageKey);
        },
    };
    let dnts = match first_capture(r#"id="dnt"[^>]*value="([^"]*)""#, html) {
        Some(d) => d,
        None => String::from_str("3"),
    };
    Ok((key, dnts))
}

/// Takes the AES key (`cct`) and the encrypted page list (`contentKey`) out of a
/// chapter page.
pub fn extract_chapter_secrets(html: &str) -> (res: Result<(String, String), SecretError>)
    ensures
        match res {
            Ok((cct, content)) => chapter_secrets(html@) == Ok::<(Seq<char>, Seq<char>), SecretError>((cct@, content@)),
            Err(e) => chapter_secrets(html@) == Err::<(Seq<char>, Seq<char>), SecretError>(e),
        },
{
    let cct = match first_capture(r"var\s+cct\s*=\s*'([^']+)'", html) {
        Some(k) => k,
        None => {
            return Err(SecretError::MissingChapterKey);
        },
    };
    let content = match first_capture(r"var\s+contentKey\s*=\s*'([^']+)'", html) {
        Some(c) => c,
        None => {
            return Err(SecretError::MissingContentKey);
        },
    };
    Ok((cct, content))
}

} // verus!
