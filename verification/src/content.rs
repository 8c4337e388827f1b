//! Carving the readable part out of a fetched page.
//!
//! A page of the reader site wraps the book's text in the site's own markup.
//! What is kept of it lies in two windows, each between two fixed markers: the
//! head's content up to the first script, and the body's content inside the
//! reader's wrapper. The rule is deliberately literal: a page on which it does
//! not fit is refused, not guessed at.

use crate::text::{
    char_start_before, find_first, find_last, first_occurrence, last_occurrence,
    lemma_boundary_after_ascii, lemma_char_start_before, lemma_occurrence, lemma_window_is_text,
    occurs_at, step_back, string_from_utf8,
};
use vstd::prelude::*;
use vstd::slice::{slice_subrange, slice_to_vec};
use vstd::string::StringSliceAdditionalSpecFns;
use vstd::utf8::*;

verus! {

/// The marker after which the head window begins.
pub const HEAD_OPEN: &'static str = "<head>";

/// The marker before which the head window ends.
pub const SCRIPT_OPEN: &'static str = "<script";

/// The marker after which the body window begins.
pub const BODY_OPEN: &'static str = "<div class=\"readercontent\"><div class=\"readercontent-inner\">";

/// The marker before whose last occurrence the body window ends.
pub const BODY_CLOSE: &'static str = "</div></div></div>";

/// What the new page holds before the head window.
pub const PAGE_OPENING: &'static str = "<?xml version='1.0' encoding='utf-8'?>\n<html xmlns=\"http://www.w3.org/1999/xhtml\">\n  <head>\n    ";

/// What the new page holds between the two windows.
pub const PAGE_MIDDLE: &'static str = "\n  </head>\n  <body class=\"calibre\">\n    ";

/// What the new page holds after the body window.
pub const PAGE_CLOSING: &'static str = "\n  </body>\n</html>";

/// Why a page was refused.
#[derive(Debug, Clone, Copy, PartialEq, Eq, Structural)]
pub enum MalformedPage {
    /// The page is not UTF-8 text.
    NotUtf8,
    /// The page has no `<head>`.
    MissingHead,
    /// The page has a script but not the reader's opening wrapper.
    MissingContentStart,
    /// The page has a script but not the reader's closing wrapper.
    MissingContentEnd,
    /// The first script stands too early for a head window to lie before it.
    HeadWindow,
    /// The closing wrapper stands too early for a body window to lie before it.
    BodyWindow,
}

/// The new page around the two windows.
pub open spec fn composed(head: Seq<u8>, body: Seq<u8>) -> Seq<u8> {
    PAGE_OPENING.spec_bytes() + head + PAGE_MIDDLE.spec_bytes() + body + PAGE_CLOSING.spec_bytes()
}

/// What becomes of a page.
///
/// A page without a script is kept as it is. Otherwise the head window runs
/// from just after the first `<head>` to one character before the first
/// `<script`, the body window from just after the first opening wrapper to one
/// character before the last closing wrapper, and the new page is composed
/// around the two.
pub open spec fn extracted(page: Seq<u8>) -> Result<Seq<u8>, MalformedPage> {
    if !valid_utf8(page) {
        Err(MalformedPage::NotUtf8)
    } else {
        match first_occurrence(page, HEAD_OPEN.spec_bytes()) {
            None => Err(MalformedPage::MissingHead),
            Some(head_at) => match first_occurrence(page, SCRIPT_OPEN.spec_bytes()) {
                None => Ok(page),
                Some(script_at) => match first_occurrence(page, BODY_OPEN.spec_bytes()) {
                    None => Err(MalformedPage::MissingContentStart),
                    Some(open_at) => match last_occurrence(page, BODY_CLOSE.spec_bytes()) {
                        None => Err(MalformedPage::MissingContentEnd),
                        Some(close_at) => {
                            let head_start = head_at + HEAD_OPEN.spec_bytes().len();
                            let head_end = char_start_before(page, script_at);
                            let body_start = open_at + BODY_OPEN.spec_bytes().len();
                            let body_end = char_start_before(page, close_at);
                            if head_end < head_start {
                                Err(MalformedPage::HeadWindow)
                            } else if body_end < body_start {
                                Err(MalformedPage::BodyWindow)
                            } else {
                                Ok(
                                    composed(
                                        page.subrange(head_start, head_end),
                                        page.subrange(body_start, body_end),
                                    ),
                                )
                            }
                        },
                    },
                },
            },
        }
    }
}

/// What a result of [`parse_content`] holds.
pub open spec fn page_of(r: Result<Vec<u8>, MalformedPage>) -> Result<Seq<u8>, MalformedPage> {
    match r {
        Ok(bytes) => Ok(bytes@),
        Err(e) => Err(e),
    }
}

/// Cuts a fetched page down to the book's own text, wrapped as a minimal
/// XHTML document.
pub fn parse_content(content: Vec<u8>) -> (r: Result<Vec<u8>, MalformedPage>)
    ensures
        page_of(r) == extracted(content@),
        r matches Ok(out) ==> valid_utf8(out@),
{
    let ghost page = content@;
    proof {
        lemma_extracted_is_text(page);
    }
    let html = match string_from_utf8(content) {
        Some(html) => html,
        None => {
            return Err(MalformedPage::NotUtf8);
        },
    };
    let text: &[u8] = html.as_str().as_bytes();
    let len: usize = text.len();
    assert(text@ == page);
    let head_at: usize = match find_first(text, HEAD_OPEN.as_bytes()) {
        Some(i) => i,
        None => {
            return Err(MalformedPage::MissingHead);
        },
    };
    let script_at: usize = match find_first(text, SCRIPT_OPEN.as_bytes()) {
        Some(i) => i,
        None => {
            return Ok(slice_to_vec(text));
        },
    };
    let open_at: usize = match find_first(text, BODY_OPEN.as_bytes()) {
        Some(i) => i,
        None => {
            return Err(MalformedPage::MissingContentStart);
        },
    };
    let close_at: usize = match find_last(text, BODY_CLOSE.as_bytes()) {
        Some(i) => i,
        None => {
            return Err(MalformedPage::MissingContentEnd);
        },
    };
    assert(head_at + HEAD_OPEN.spec_bytes().len() <= len);
    assert(open_at + BODY_OPEN.spec_bytes().len() <= len);
    let head_start: usize = head_at + HEAD_OPEN.as_bytes().len();
    let body_start: usize = open_at + BODY_OPEN.as_bytes().len();
    let head_end: usize = match step_back(text, script_at) {
        Some(i) if i >= head_start => i,
        _ => {
            return Err(MalformedPage::HeadWindow);
        },
    };
    let body_end: usize = match step_back(text, close_at) {
        Some(i) if i >= body_start => i,
        _ => {
            return Err(MalformedPage::BodyWindow);
        },
    };
    let mut out: Vec<u8> = Vec::new();
    out.extend_from_slice(PAGE_OPENING.as_bytes());
    out.extend_from_slice(slice_subrange(text, head_start, head_end));
    out.extend_from_slice(PAGE_MIDDLE.as_bytes());
    out.extend_from_slice(slice_subrange(text, body_start, body_end));
    out.extend_from_slice(PAGE_CLOSING.as_bytes());
    assert(out@ =~= composed(
        page.subrange(head_start as int, head_end as int),
        page.subrange(body_start as int, body_end as int),
    ));
    Ok(out)
}

/// A page without a script comes out as it went in, provided that it is
/// UTF-8 text and has a `<head>`.
pub proof fn lemma_page_without_script_is_kept(page: Seq<u8>)
    requires
        valid_utf8(page),
        exists|i: int| occurs_at(page, HEAD_OPEN.spec_bytes(), i),
        forall|i: int| !occurs_at(page, SCRIPT_OPEN.spec_bytes(), i),
    ensures
        extracted(page) matches Ok(out) && out == page,
{
}

/// The two opening markers end in an ASCII byte, and the pieces of the new
/// page are UTF-8 text.
proof fn lemma_literals()
    ensures
        HEAD_OPEN.spec_bytes().len() == 6,
        HEAD_OPEN.spec_bytes()[5] < 0x80,
        BODY_OPEN.spec_bytes().len() == 60,
        BODY_OPEN.spec_bytes()[59] < 0x80,
        valid_utf8(PAGE_OPENING.spec_bytes()),
        valid_utf8(PAGE_MIDDLE.spec_bytes()),
        valid_utf8(PAGE_CLOSING.spec_bytes()),
{
    broadcast use vstd::string::is_ascii_spec_bytes;

    reveal_strlit("<head>");
    reveal_strlit("<div class=\"readercontent\"><div class=\"readercontent-inner\">");
    assert(vstd::string::is_ascii(HEAD_OPEN));
    assert(vstd::string::is_ascii(BODY_OPEN));
    encode_utf8_valid_utf8(PAGE_OPENING@);
    encode_utf8_valid_utf8(PAGE_MIDDLE@);
    encode_utf8_valid_utf8(PAGE_CLOSING@);
}

/// A page that is accepted comes out as UTF-8 text.
pub proof fn lemma_extracted_is_text(page: Seq<u8>)
    ensures
        extracted(page) matches Ok(out) ==> valid_utf8(out),
{
    if let Ok(out) = extracted(page) {
        if first_occurrence(page, SCRIPT_OPEN.spec_bytes()) is Some {
            lemma_literals();
            let head_at = first_occurrence(page, HEAD_OPEN.spec_bytes())->0;
            let script_at = first_occurrence(page, SCRIPT_OPEN.spec_bytes())->0;
            let open_at = first_occurrence(page, BODY_OPEN.spec_bytes())->0;
            let close_at = last_occurrence(page, BODY_CLOSE.spec_bytes())->0;
            lemma_occurrence(page, HEAD_OPEN.spec_bytes());
            lemma_occurrence(page, SCRIPT_OPEN.spec_bytes());
            lemma_occurrence(page, BODY_OPEN.spec_bytes());
            lemma_occurrence(page, BODY_CLOSE.spec_bytes());
            let head_start = head_at + 6;
            let head_end = char_start_before(page, script_at);
            let body_start = open_at + 60;
            let body_end = char_start_before(page, close_at);
            lemma_char_start_before(page, script_at);
            lemma_char_start_before(page, close_at);
            assert(page[head_start - 1] == page.subrange(head_at, head_at + 6)[5]);
            assert(page[body_start - 1] == page.subrange(open_at, open_at + 60)[59]);
            lemma_boundary_after_ascii(page, head_start - 1);
            lemma_boundary_after_ascii(page, body_start - 1);
            is_char_boundary_iff_not_is_continuation_byte(page, head_end);
            is_char_boundary_iff_not_is_continuation_byte(page, body_end);
            lemma_window_is_text(page, head_start, head_end);
            lemma_window_is_text(page, body_start, body_end);
            let head = page.subrange(head_start, head_end);
            let body = page.subrange(body_start, body_end);
            valid_utf8_concat(PAGE_OPENING.spec_bytes(), head);
            valid_utf8_concat(PAGE_OPENING.spec_bytes() + head, PAGE_MIDDLE.spec_bytes());
            valid_utf8_concat(PAGE_OPENING.spec_bytes() + head + PAGE_MIDDLE.spec_bytes(), body);
            valid_utf8_concat(
                PAGE_OPENING.spec_bytes() + head + PAGE_MIDDLE.spec_bytes() + body,
                PAGE_CLOSING.spec_bytes(),
            );
        }
    }
}

} // verus!
