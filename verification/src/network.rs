//! Fetching templates from http endpoints: endpoint validation and the
//! decision logic around an already-downloaded archive stream. The
//! download itself is the surrounding program's concern.

use vstd::prelude::*;

use crate::commands::command::{error, CommandError, Iteration, RunOutcome};
use crate::config::Config;
use crate::strutil::str_eq;
use crate::templates::{StoredFile, Template};

verus! {

/// The scheme of a URL as its parser yields it: a pure function of the
/// text, or nothing when the text is no URL.
pub uninterp spec fn url_scheme_of(s: Seq<char>) -> Option<Seq<char>>;

/// Relies on reqwest::Url::parse: parsing depends on the text alone,
/// and a parsed URL's scheme is part of it.
#[verifier::external_body]
fn parse_url_scheme(endpoint: &str) -> (r: Option<String>)
    ensures
        match r {
            Some(s) => url_scheme_of(endpoint@) == Some(s@),
            None => url_scheme_of(endpoint@) is None,
        },
{
    match reqwest::Url::parse(endpoint) {
        Ok(url) => Some(url.scheme().to_string()),
        Err(_) => None,
    }
}

/// The endpoint may be fetched from: it parses as a URL with an http or
/// https scheme, and https when the configuration demands it.
pub open spec fn endpoint_acceptable(config: Config, endpoint: Seq<char>) -> bool {
    &&& (url_scheme_of(endpoint) == Some("http"@) || url_scheme_of(endpoint)
        == Some("https"@))
    &&& config.require_https ==> url_scheme_of(endpoint) == Some("https"@)
}

/// Helpers around fetching a template over http.
pub struct NetworkUtil;

impl NetworkUtil {
    /// Checks that the endpoint is an http(s) URL, and https when the
    /// configuration demands it.
    pub fn validate_endpoint(config: &Config, endpoint: &str) -> (r: Result<(), CommandError>)
        ensures
            r is Ok <==> endpoint_acceptable(*config, endpoint@),
    {
        let scheme = match parse_url_scheme(endpoint) {
            Some(scheme) => scheme,
            None => {
                return Err(error("Invalid endpoint passed"));
            },
        };
        let is_https = str_eq(scheme.as_str(), "https");
        if !is_https && !str_eq(scheme.as_str(), "http") {
            return Err(error("Endpoint passed is not an http(s) endpoint"));
        }
        if config.require_https && !is_https {
            return Err(error("Non https endpoints not allowed by config"));
        }
        Ok(())
    }

    /// Decides one step of fetching a template: validates the endpoint,
    /// asks for the download when the bytes are not here yet, and
    /// otherwise rebuilds the stream as the archive for
    /// `(name, iteration)`. This function does not see the store: the
    /// refusal of a name already in use, and the choice of the
    /// iteration, live with the fetch command's planner, which resolves
    /// them from the store before calling here.
    pub fn fetch_template(
        config: &Config,
        endpoint: &str,
        name: &str,
        iteration: Iteration,
        fetched: &Option<Vec<u8>>,
    ) -> (r: Result<RunOutcome, CommandError>)
        ensures
            match r {
                Ok(out) => match out {
                    RunOutcome::NeedsFetch { endpoint: e } => {
                        &&& e@ == endpoint@
                        &&& fetched is None
                        &&& endpoint_acceptable(*config, endpoint@)
                    },
                    RunOutcome::Wrote { template, path, data } => {
                        &&& endpoint_acceptable(*config, endpoint@)
                        &&& fetched matches Some(stream)
                        &&& crate::archive::archive_members(data@)
                            == crate::archive::stored_entries(
                            crate::templates::ingest_entries(
                                crate::archive::archive_members(stream@),
                                seq![crate::globals::MANIFEST_MEMBER@],
                            ) + seq![crate::templates::manifest_entry(name@, iteration)],
                        )
                        &&& crate::archive::all_entries_safe(
                            crate::archive::archive_members(stream@),
                        )
                        &&& template.info.name@ == name@
                        &&& template.info.iteration == iteration
                        &&& path@ == crate::templates::archive_path(
                            config.template_dir@,
                            name@,
                            iteration,
                        )
                    },
                    _ => false,
                },
                Err(_) => true,
            },
            (fetched matches Some(stream) && !crate::archive::all_entries_safe(
                crate::archive::archive_members(stream@),
            )) ==> r is Err,
            (endpoint_acceptable(*config, endpoint@) && fetched is None) ==> r is Ok,
    {
        if let Err(e) = Self::validate_endpoint(config, endpoint) {
            return Err(e);
        }
        let stream = match fetched {
            None => {
                return Ok(RunOutcome::NeedsFetch { endpoint: endpoint.to_owned() });
            },
            Some(stream) => stream,
        };
        let mut remove: Vec<String> = Vec::new();
        remove.push((crate::globals::MANIFEST_MEMBER).to_owned());
        proof {
            assert(crate::strutil::string_views(remove@)
                =~= seq![crate::globals::MANIFEST_MEMBER@]);
        }
        match Template::store(config, name, iteration, stream, &remove) {
            Ok((template, data)) => {
                let path = template.filename.clone();
                Ok(RunOutcome::Wrote { template, path, data })
            },
            Err(e) => {
                if e == crate::commands::command::StoreError::SecurityError {
                    Err(error(
                        "Template file contains files trying to escape its path. Template might be harmful",
                    ))
                } else {
                    Err(error("IO error while storing fetched template"))
                }
            },
        }
    }
}

} // verus!
