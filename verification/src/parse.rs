//! Reading a cache record back.
//!
//! The reader accepts exactly the texts that writing produces: a text is read
//! as a configuration if and only if it is the record of that configuration.

use crate::config::{FinalConfig, FinalConfigView};
use crate::record::{listed, member, quoted, record_text};
use crate::scan::{
    lemma_scan_list_member_complete, lemma_scan_list_member_sound, lemma_scan_literal_complete,
    lemma_scan_literal_sound, lemma_scan_text_member_complete, lemma_scan_text_member_sound,
    read_list_member, read_literal, read_text_member, scan_list_member, scan_literal,
    scan_text_member,
};
use crate::text::chars_of;
use vstd::prelude::*;

verus! {

/// The configuration whose record `all` is, if it is one.
spec fn scan_record(all: Seq<char>) -> Option<FinalConfigView> {
    match scan_literal(all, '{') {
        Some(r1) => match scan_text_member(r1, "version"@) {
            Some((version, r2)) => match scan_literal(r2, ',') {
                Some(r3) => match scan_list_member(r3, "env_files"@) {
                    Some((env_files, r4)) => match scan_literal(r4, ',') {
                        Some(r5) => match scan_text_member(r5, "body"@) {
                            Some((body, r6)) => if r6 == seq!['}'] {
                                Some(FinalConfigView { version, env_files, body })
                            } else {
                                None
                            },
                            None => None,
                        },
                        None => None,
                    },
                    None => None,
                },
                None => None,
            },
            None => None,
        },
        None => None,
    }
}

/// A record is its opening brace followed by the members one behind the
/// other, each with what follows it.
proof fn lemma_record_layout(
    config: FinalConfigView,
    all: Seq<char>,
    r1: Seq<char>,
    r2: Seq<char>,
    r3: Seq<char>,
    r4: Seq<char>,
    r5: Seq<char>,
)
    requires
        all == seq!['{'] + r1,
        r1 == member("version"@, quoted(config.version)) + r2,
        r2 == seq![','] + r3,
        r3 == member("env_files"@, listed(config.env_files)) + r4,
        r4 == seq![','] + r5,
        r5 == member("body"@, quoted(config.body)) + seq!['}'],
    ensures
        all == record_text(config),
{
    assert(all =~= record_text(config));
}

/// Reading the record of a configuration gives that configuration.
proof fn lemma_scan_record_complete(config: FinalConfigView)
    ensures
        scan_record(record_text(config)) == Some(config),
{
    let r6 = seq!['}'];
    let r5 = member("body"@, quoted(config.body)) + r6;
    let r4 = seq![','] + r5;
    let r3 = member("env_files"@, listed(config.env_files)) + r4;
    let r2 = seq![','] + r3;
    let r1 = member("version"@, quoted(config.version)) + r2;
    let all = seq!['{'] + r1;
    lemma_record_layout(config, all, r1, r2, r3, r4, r5);
    lemma_scan_literal_complete('{', r1);
    lemma_scan_text_member_complete("version"@, config.version, r2);
    lemma_scan_literal_complete(',', r3);
    lemma_scan_list_member_complete("env_files"@, config.env_files, r4);
    lemma_scan_literal_complete(',', r5);
    lemma_scan_text_member_complete("body"@, config.body, r6);
}

/// A text that reads as a configuration is the record of that configuration.
proof fn lemma_scan_record_sound(all: Seq<char>, config: FinalConfigView)
    requires
        scan_record(all) == Some(config),
    ensures
        all == record_text(config),
{
    let r1 = scan_literal(all, '{')->0;
    let (version, r2) = scan_text_member(r1, "version"@)->0;
    let r3 = scan_literal(r2, ',')->0;
    let (env_files, r4) = scan_list_member(r3, "env_files"@)->0;
    let r5 = scan_literal(r4, ',')->0;
    let (body, r6) = scan_text_member(r5, "body"@)->0;
    assert(config == FinalConfigView { version, env_files, body });
    lemma_scan_literal_sound(all, '{', r1);
    lemma_scan_text_member_sound(r1, "version"@, version, r2);
    lemma_scan_literal_sound(r2, ',', r3);
    lemma_scan_list_member_sound(r3, "env_files"@, env_files, r4);
    lemma_scan_literal_sound(r4, ',', r5);
    lemma_scan_text_member_sound(r5, "body"@, body, r6);
    lemma_record_layout(config, all, r1, r2, r3, r4, r5);
}

/// Reads the whole of `src` as a cache record.
fn read_record(src: &Vec<char>) -> (config: Option<FinalConfig>)
    ensures
        match config {
            Some(config) => scan_record(src@) == Some(config@),
            None => scan_record(src@) is None,
        },
{
    assert(src@.skip(0) =~= src@);
    let r1 = match read_literal(src, 0, '{') {
        Some(end) => end,
        None => {
            return None;
        },
    };
    let (version, r2) = match read_text_member(src, r1, "version") {
        Some(found) => found,
        None => {
            return None;
        },
    };
    let r3 = match read_literal(src, r2, ',') {
        Some(end) => end,
        None => {
            return None;
        },
    };
    let (env_files, r4) = match read_list_member(src, r3, "env_files") {
        Some(found) => found,
        None => {
            return None;
        },
    };
    let r5 = match read_literal(src, r4, ',') {
        Some(end) => end,
        None => {
            return None;
        },
    };
    let (body, r6) = match read_text_member(src, r5, "body") {
        Some(found) => found,
        None => {
            return None;
        },
    };
    if r6 < src.len() && src[r6] == '}' && r6 + 1 == src.len() {
        assert(src@.skip(r6 as int) =~= seq!['}']);
        Some(FinalConfig { version, env_files, body })
    } else {
        assert(src@.skip(r6 as int) != seq!['}']) by {
            if src@.skip(r6 as int) == seq!['}'] {
                assert(src@.skip(r6 as int).len() == 1);
                assert(src@.skip(r6 as int)[0] == '}');
            }
        }
        None
    }
}

/// Whether `text` is the cache record of some configuration.
pub open spec fn is_record(text: Seq<char>) -> bool {
    exists|config: FinalConfigView| record_text(config) == text
}

/// Reads a cache record. It gives the configuration that `text` is the record
/// of, and nothing where `text` is no record.
pub fn deserialize(text: &str) -> (config: Option<FinalConfig>)
    ensures
        match config {
            Some(config) => record_text(config@) == text@,
            None => !is_record(text@),
        },
{
    let src = chars_of(text);
    match read_record(&src) {
        Some(config) => {
            proof {
                lemma_scan_record_sound(text@, config@);
            }
            Some(config)
        },
        None => {
            proof {
                assert forall|other: FinalConfigView| record_text(other) != text@ by {
                    lemma_scan_record_complete(other);
                }
            }
            None
        },
    }
}

/// No two configurations have the same record.
pub proof fn lemma_record_text_injective(a: FinalConfigView, b: FinalConfigView)
    requires
        record_text(a) == record_text(b),
    ensures
        a == b,
{
    lemma_scan_record_complete(a);
    lemma_scan_record_complete(b);
}

} // verus!
