//! The crate-lookup module's presentation: what the reply says once the
//! package index has answered.  The HTTP query itself is made by the
//! binary; every fallback and cleanup rule stands here.

use vstd::prelude::*;

use crate::conn::LF;
use crate::fmt::{format_seconds, format_seconds_spec};
use crate::text::{replace_byte, replace_byte_spec, subrange_vec, trim, trim_spec, SP};

verus! {

/// `https://docs.rs/`
pub open spec fn lit_docs_rs() -> Seq<u8> {
    seq![104u8, 116u8, 116u8, 112u8, 115u8, 58u8, 47u8, 47u8, 100u8, 111u8, 99u8, 115u8, 46u8, 114u8, 115u8, 47u8]
}

/// Writes `https://docs.rs/` as bytes.
pub fn bytes_docs_rs() -> (r: Vec<u8>)
    ensures
        r@ == lit_docs_rs(),
{
    let mut v: Vec<u8> = Vec::new();
    v.push(104);
    v.push(116);
    v.push(116);
    v.push(112);
    v.push(115);
    v.push(58);
    v.push(47);
    v.push(47);
    v.push(100);
    v.push(111);
    v.push(99);
    v.push(115);
    v.push(46);
    v.push(114);
    v.push(115);
    v.push(47);
    proof {
        assert(v@ =~= lit_docs_rs());
    }
    v
}

/// `no description`
pub open spec fn lit_no_description() -> Seq<u8> {
    seq![110u8, 111u8, 32u8, 100u8, 101u8, 115u8, 99u8, 114u8, 105u8, 112u8, 116u8, 105u8, 111u8, 110u8]
}

/// Writes `no description` as bytes.
pub fn bytes_no_description() -> (r: Vec<u8>)
    ensures
        r@ == lit_no_description(),
{
    let mut v: Vec<u8> = Vec::new();
    v.push(110);
    v.push(111);
    v.push(32);
    v.push(100);
    v.push(101);
    v.push(115);
    v.push(99);
    v.push(114);
    v.push(105);
    v.push(112);
    v.push(116);
    v.push(105);
    v.push(111);
    v.push(110);
    proof {
        assert(v@ =~= lit_no_description());
    }
    v
}

/// `no repository`
pub open spec fn lit_no_repository() -> Seq<u8> {
    seq![110u8, 111u8, 32u8, 114u8, 101u8, 112u8, 111u8, 115u8, 105u8, 116u8, 111u8, 114u8, 121u8]
}

/// Writes `no repository` as bytes.
pub fn bytes_no_repository() -> (r: Vec<u8>)
    ensures
        r@ == lit_no_repository(),
{
    let mut v: Vec<u8> = Vec::new();
    v.push(110);
    v.push(111);
    v.push(32);
    v.push(114);
    v.push(101);
    v.push(112);
    v.push(111);
    v.push(115);
    v.push(105);
    v.push(116);
    v.push(111);
    v.push(114);
    v.push(121);
    proof {
        assert(v@ =~= lit_no_repository());
    }
    v
}

/// One package as the index reports it, dates already turned into an
/// age in seconds.
pub struct CrateInfo {
    pub name: Vec<u8>,
    pub max_version: Vec<u8>,
    pub description: Option<Vec<u8>>,
    pub documentation: Option<Vec<u8>>,
    pub repository: Option<Vec<u8>>,
    pub exact_match: bool,
    pub updated_secs_ago: u64,
}

/// What the lookup answers.
pub enum CrateReply {
    /// A package was found; `best_match` says the name was not exact.
    Found {
        name: Vec<u8>,
        version: Vec<u8>,
        description: Vec<u8>,
        docs: Vec<u8>,
        repo: Vec<u8>,
        updated: Vec<u8>,
        best_match: bool,
    },
    /// The index knows no such package.
    NotFound { query: Vec<u8> },
}

/// The shown description: line breaks flattened to spaces and the ends
/// trimmed, or a stock line when the index gave none.
pub open spec fn shown_description(d: Option<Vec<u8>>) -> Seq<u8> {
    match d {
        Some(v) => trim_spec(replace_byte_spec(v@, LF, SP)),
        None => lit_no_description(),
    }
}

/// The shown documentation link: what the index gave, or the docs site
/// address derived from the name.
pub open spec fn shown_docs(d: Option<Vec<u8>>, name: Seq<u8>) -> Seq<u8> {
    match d {
        Some(v) => v@,
        None => lit_docs_rs() + name,
    }
}

/// The shown repository link, or a stock line when the index gave none.
pub open spec fn shown_repo(d: Option<Vec<u8>>) -> Seq<u8> {
    match d {
        Some(v) => v@,
        None => lit_no_repository(),
    }
}

/// Builds the lookup reply: nothing found echoes the query; a found
/// package is shown with its cleaned description, its documentation and
/// repository links or their fallbacks, and its age in words.
pub fn crate_reply(query: &[u8], found: Option<CrateInfo>) -> (r: CrateReply)
    ensures
        match found {
            None => r matches CrateReply::NotFound { query: q } && q@ == query@,
            Some(info) => r matches CrateReply::Found {
                name,
                version,
                description,
                docs,
                repo,
                updated,
                best_match,
            } && name@ == info.name@ && version@ == info.max_version@ && description@
                == shown_description(info.description) && docs@ == shown_docs(
                info.documentation,
                info.name@,
            ) && repo@ == shown_repo(info.repository) && updated@ == format_seconds_spec(
                info.updated_secs_ago,
            ) && best_match == !info.exact_match,
        },
{
    let info = match found {
        None => {
            return CrateReply::NotFound { query: subrange_vec(query, 0, query.len()) };
        },
        Some(info) => info,
    };
    let description = match &info.description {
        Some(v) => trim(replace_byte(v.as_slice(), LF, SP).as_slice()),
        None => bytes_no_description(),
    };
    let docs = match info.documentation {
        Some(v) => v,
        None => {
            let mut d = bytes_docs_rs();
            crate::text::append_vec(&mut d, &info.name);
            d
        },
    };
    let repo = match info.repository {
        Some(v) => v,
        None => bytes_no_repository(),
    };
    let updated = format_seconds(info.updated_secs_ago);
    CrateReply::Found {
        name: info.name,
        version: info.max_version,
        description,
        docs,
        repo,
        updated,
        best_match: !info.exact_match,
    }
}

} // verus!
