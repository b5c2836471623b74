//! Purging older versions of templates: every iteration but the highest
//! of each name is removed.

use vstd::prelude::*;

use crate::commands::command::{error, CommandError, RunCommand, RunInputs, RunOutcome};
use crate::config::Config;
use crate::strutil::str_eq;
use crate::templates::{StoredFile, Template};

verus! {

/// Purge older versions of templates.
pub struct PurgeCommand {
    /// Optional template name to purge; all templates by default.
    pub template_name: Option<String>,
}

/// The view of an optional string.
pub open spec fn opt_string_view(o: Option<String>) -> Option<Seq<char>> {
    match o {
        Some(s) => Some(s@),
        None => None,
    }
}

/// Template `k` of `ts` is purged under `filter`: its name passes the
/// filter, and some template of `ts` holds the same name at a strictly
/// higher iteration.
pub open spec fn is_purge_victim(ts: Seq<Template>, k: int, filter: Option<Seq<char>>) -> bool {
    &&& match filter {
        Some(n) => ts[k].info.name@ == n,
        None => true,
    }
    &&& exists|j: int| 0 <= j < ts.len() && (#[trigger] ts[j].info.name@) == ts[k].info.name@
        && ts[j].info.iteration > ts[k].info.iteration
}

/// The file names of the purged templates among `ts[..upto]`, in order.
pub open spec fn purge_victims(ts: Seq<Template>, upto: int, filter: Option<Seq<char>>) -> Seq<
    Seq<char>,
>
    decreases upto,
{
    if upto <= 0 {
        Seq::empty()
    } else {
        let rest = purge_victims(ts, upto - 1, filter);
        if is_purge_victim(ts, upto - 1, filter) {
            rest.push(ts[upto - 1].filename@)
        } else {
            rest
        }
    }
}

/// Selects the templates a purge removes: every template that passes
/// the name filter and is not the highest iteration of its name. Yields
/// their file names in input order, and the count.
pub fn purge_plan(ts: &Vec<Template>, filter: &Option<String>) -> (r: (Vec<String>, u64))
    ensures
        crate::strutil::string_views(r.0@) == purge_victims(
            ts@,
            ts@.len() as int,
            opt_string_view(*filter),
        ),
        r.1 == r.0@.len(),
{
    let ghost fview = opt_string_view(*filter);
    let mut files: Vec<String> = Vec::new();
    proof {
        assert(crate::strutil::string_views(files@) =~= purge_victims(ts@, 0, fview));
    }
    let mut k: usize = 0;
    while k < ts.len()
        invariant
            0 <= k <= ts@.len(),
            fview == opt_string_view(*filter),
            crate::strutil::string_views(files@) == purge_victims(ts@, k as int, fview),
        decreases ts@.len() - k,
    {
        let passes = match filter {
            Some(n) => str_eq(ts[k].info.name.as_str(), n.as_str()),
            None => true,
        };
        if passes && has_newer_iteration(ts, k) {
            let f = ts[k].filename.clone();
            proof {
                assert(is_purge_victim(ts@, k as int, fview));
                assert(crate::strutil::string_views(files@.push(f))
                    =~= crate::strutil::string_views(files@).push(f@));
            }
            files.push(f);
        } else {
            proof {
                assert(!is_purge_victim(ts@, k as int, fview));
            }
        }
        k = k + 1;
    }
    let count = files.len() as u64;
    (files, count)
}

/// Decides whether some template of `ts` shares `ts[k]`'s name at a
/// strictly higher iteration.
fn has_newer_iteration(ts: &Vec<Template>, k: usize) -> (r: bool)
    requires
        k < ts@.len(),
    ensures
        r == exists|j: int| 0 <= j < ts@.len() && (#[trigger] ts@[j].info.name@)
            == ts@[k as int].info.name@ && ts@[j].info.iteration
            > ts@[k as int].info.iteration,
{
    let mut j: usize = 0;
    while j < ts.len()
        invariant
            0 <= j <= ts@.len(),
            k < ts@.len(),
            forall|m: int| 0 <= m < j ==> !((#[trigger] ts@[m].info.name@)
                == ts@[k as int].info.name@ && ts@[m].info.iteration
                > ts@[k as int].info.iteration),
        decreases ts@.len() - j,
    {
        if str_eq(ts[j].info.name.as_str(), ts[k].info.name.as_str())
            && ts[j].info.iteration > ts[k].info.iteration {
            return true;
        }
        j = j + 1;
    }
    false
}

/// What planning a purge guarantees: on success at least one older
/// iteration was selected, the count matches the files, and the files
/// are exactly the non-highest iterations, per name, of a sorted scan
/// of the store; selecting nothing is surfaced as an error, unlike
/// per-item deletion.
pub open spec fn purge_plan_post(
    cmd: PurgeCommand,
    store: Seq<StoredFile>,
    r: Result<RunOutcome, CommandError>,
) -> bool {
    &&& crate::templates::store_readable(store) ==> (r is Ok || exists|ts: Seq<Template>|
        #![trigger crate::templates::templates_sorted(ts, true)]
        {
            &&& crate::templates::templates_sorted(ts, true)
            &&& crate::templates::tviews(ts).to_multiset()
                == crate::templates::file_tviews(store).to_multiset()
            &&& purge_victims(ts, ts.len() as int, opt_string_view(cmd.template_name)).len()
                == 0
        })
    &&& match r {
        Ok(out) => match out {
            RunOutcome::Purged { files, count } => {
                &&& count == files@.len()
                &&& count > 0
                &&& exists|ts: Seq<Template>|
                    #![trigger crate::templates::templates_sorted(ts, true)]
                    {
                        &&& crate::templates::templates_sorted(ts, true)
                        &&& crate::templates::tviews(ts).to_multiset()
                            == crate::templates::file_tviews(store).to_multiset()
                        &&& crate::strutil::string_views(files@) == purge_victims(
                            ts,
                            ts.len() as int,
                            opt_string_view(cmd.template_name),
                        )
                    }
            },
            _ => false,
        },
        Err(_) => true,
    }
}

impl PurgeCommand {
    /// Plans a purge over the store's templates; zero removals are an
    /// error.
    pub fn plan(&self, config: &Config, store: &Vec<StoredFile>) -> (r: Result<
        RunOutcome,
        CommandError,
    >)
        ensures
            purge_plan_post(*self, store@, r),
    {
        let ts = match Template::get_existing(store) {
            Ok(ts) => ts,
            Err(_) => {
                return Err(error("Error while scanning the template directory"));
            },
        };
        let (files, count) = purge_plan(&ts, &self.template_name);
        if count == 0 {
            return Err(error("Template not found or no templates to purge"));
        }
        proof {
            assert(crate::templates::templates_sorted(ts@, true));
        }
        Ok(RunOutcome::Purged { files, count })
    }
}

impl RunCommand for PurgeCommand {
    fn run(&self, config: &Config, store: &Vec<StoredFile>, _inputs: &RunInputs) -> Result<
        RunOutcome,
        CommandError,
    > {
        self.plan(config, store)
    }
}

} // verus!
