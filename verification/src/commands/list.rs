//! Listing stored templates.

use vstd::prelude::*;

use crate::commands::command::{error, CommandError, Iteration, RunCommand, RunInputs, RunOutcome};
use crate::config::Config;
use crate::strutil::{str_contains, str_contains_spec};
use crate::templates::{
    file_tviews, templates_sorted, tview, tviews, StoredFile, Template,
};

verus! {

/// List all templates.
pub struct ListCommand {
    /// Show only templates whose name contains this pattern.
    pub pattern: Option<String>,
    /// Instead of grouping by template, list each version as its own
    /// entry.
    pub flatten: bool,
}

/// One printed row per template version, names and iterations in order.
pub open spec fn flatten_rows(ts: Seq<Template>) -> Seq<(Seq<char>, u64)> {
    ts.map_values(|t: Template| (t.info.name@, t.info.iteration))
}

/// One printed row per name: the row at the end of each run of equal
/// names (in a name-grouped sorted listing, the highest iteration of
/// each name).
pub open spec fn group_rows(ts: Seq<Template>, upto: int) -> Seq<(Seq<char>, u64)>
    decreases upto,
{
    if upto <= 0 {
        Seq::empty()
    } else {
        let rest = group_rows(ts, upto - 1);
        if upto == ts.len() || ts[upto].info.name@ != ts[upto - 1].info.name@ {
            rest.push((ts[upto - 1].info.name@, ts[upto - 1].info.iteration))
        } else {
            rest
        }
    }
}

/// The row views of a row vector.
pub open spec fn row_views(rows: Seq<(String, Iteration)>) -> Seq<(Seq<char>, u64)> {
    rows.map_values(|r: (String, Iteration)| (r.0@, r.1))
}

/// Builds the printed rows over a sorted template list: every version
/// when `flatten` is set, else the last row of each name's run.
pub fn build_rows(ts: &Vec<Template>, flatten: bool) -> (r: Vec<(String, Iteration)>)
    ensures
        flatten ==> row_views(r@) == flatten_rows(ts@),
        !flatten ==> row_views(r@) == group_rows(ts@, ts@.len() as int),
{
    let mut rows: Vec<(String, Iteration)> = Vec::new();
    if flatten {
        proof {
            assert(row_views(rows@) =~= flatten_rows(ts@.take(0)));
        }
        let mut i: usize = 0;
        while i < ts.len()
            invariant
                0 <= i <= ts@.len(),
                row_views(rows@) == flatten_rows(ts@.take(i as int)),
            decreases ts@.len() - i,
        {
            let row = (ts[i].info.name.clone(), ts[i].info.iteration);
            proof {
                assert(row_views(rows@.push(row)) =~= row_views(rows@).push((row.0@, row.1)));
                assert(flatten_rows(ts@.take(i + 1)) =~= flatten_rows(ts@.take(i as int)).push(
                    (ts@[i as int].info.name@, ts@[i as int].info.iteration),
                ));
            }
            rows.push(row);
            i = i + 1;
        }
        proof {
            assert(ts@.take(ts@.len() as int) =~= ts@);
        }
    } else {
        proof {
            assert(row_views(rows@) =~= group_rows(ts@, 0));
        }
        let mut i: usize = 0;
        while i < ts.len()
            invariant
                0 <= i <= ts@.len(),
                row_views(rows@) == group_rows(ts@, i as int),
            decreases ts@.len() - i,
        {
            let is_run_end = i + 1 == ts.len() || !crate::strutil::str_eq(
                ts[i + 1].info.name.as_str(),
                ts[i].info.name.as_str(),
            );
            if is_run_end {
                let row = (ts[i].info.name.clone(), ts[i].info.iteration);
                proof {
                    assert(row_views(rows@.push(row))
                        =~= row_views(rows@).push((row.0@, row.1)));
                }
                rows.push(row);
            }
            i = i + 1;
        }
    }
    rows
}

/// The name column's width: at least twenty columns, and wide enough
/// for the longest name among `ts[..upto]`.
pub open spec fn name_column_width(ts: Seq<Template>, upto: int) -> int
    decreases upto,
{
    if upto <= 0 {
        20
    } else {
        let rest = name_column_width(ts, upto - 1);
        if ts[upto - 1].info.name@.len() > rest {
            ts[upto - 1].info.name@.len() as int
        } else {
            rest
        }
    }
}

/// The name column is never narrower than twenty columns.
pub proof fn name_column_width_at_least(ts: Seq<Template>, upto: int)
    ensures
        name_column_width(ts, upto) >= 20,
    decreases upto,
{
    if upto > 0 {
        name_column_width_at_least(ts, upto - 1);
    }
}

/// Computes `name_column_width`.
pub fn column_width(ts: &Vec<Template>) -> (r: usize)
    ensures
        r == name_column_width(ts@, ts@.len() as int),
{
    let mut w: usize = 20;
    let mut i: usize = 0;
    while i < ts.len()
        invariant
            0 <= i <= ts@.len(),
            w == name_column_width(ts@, i as int),
        decreases ts@.len() - i,
    {
        let l = ts[i].info.name.as_str().unicode_len();
        if l > w {
            w = l;
        }
        i = i + 1;
    }
    w
}

/// The record views whose name contains the pattern, in order.
pub open spec fn filtered_tviews(
    vs: Seq<(Seq<char>, u64, Seq<char>, u64)>,
    pattern: Option<Seq<char>>,
) -> Seq<(Seq<char>, u64, Seq<char>, u64)>
    decreases vs.len(),
{
    if vs.len() == 0 {
        Seq::empty()
    } else {
        let rest = filtered_tviews(vs.drop_last(), pattern);
        let keep = match pattern {
            Some(p) => str_contains_spec(vs.last().0, p),
            None => true,
        };
        if keep {
            rest.push(vs.last())
        } else {
            rest
        }
    }
}

proof fn filtered_tviews_snoc(
    vs: Seq<(Seq<char>, u64, Seq<char>, u64)>,
    v: (Seq<char>, u64, Seq<char>, u64),
    pattern: Option<Seq<char>>,
)
    ensures
        filtered_tviews(vs.push(v), pattern) == {
            let keep = match pattern {
                Some(p) => str_contains_spec(v.0, p),
                None => true,
            };
            if keep {
                filtered_tviews(vs, pattern).push(v)
            } else {
                filtered_tviews(vs, pattern)
            }
        },
{
    assert(vs.push(v).drop_last() =~= vs);
    assert(vs.push(v).last() == v);
}

/// The view of the optional pattern.
pub open spec fn pattern_view(o: Option<String>) -> Option<Seq<char>> {
    match o {
        Some(s) => Some(s@),
        None => None,
    }
}

/// What planning a listing guarantees: the rows are laid out, flattened
/// or grouped as asked, over a list sorted by name and ascending
/// iteration whose record views are, as a multiset, exactly the
/// pattern-matching records of some ordering of the store — every
/// matching record is accounted for exactly once.
pub open spec fn list_plan_post(
    cmd: ListCommand,
    store: Seq<StoredFile>,
    r: Result<RunOutcome, CommandError>,
) -> bool {
    &&& crate::templates::store_readable(store) ==> r is Ok
    &&& match r {
        Ok(out) => match out {
            RunOutcome::Listed { rows, width } => exists|
                vs: Seq<(Seq<char>, u64, Seq<char>, u64)>,
                ts: Seq<Template>,
            |
                #![trigger vs.to_multiset(), templates_sorted(ts, false)]
                {
                    &&& vs.to_multiset() == file_tviews(store).to_multiset()
                    &&& templates_sorted(ts, false)
                    &&& tviews(ts).to_multiset() == filtered_tviews(
                        vs,
                        pattern_view(cmd.pattern),
                    ).to_multiset()
                    &&& if cmd.flatten {
                        row_views(rows@) == flatten_rows(ts)
                    } else {
                        row_views(rows@) == group_rows(ts, ts.len() as int)
                    }
                    &&& width >= 20
                },
            _ => false,
        },
        Err(_) => true,
    }
}

impl ListCommand {
    /// Plans a listing: scans the store, filters by the pattern, sorts
    /// by name and ascending iteration, and lays the rows out.
    pub fn plan(&self, config: &Config, store: &Vec<StoredFile>) -> (r: Result<
        RunOutcome,
        CommandError,
    >)
        ensures
            list_plan_post(*self, store@, r),
    {
        let scanned = match Template::get_existing(store) {
            Ok(scanned) => scanned,
            Err(_) => {
                return Err(error("Error while scanning the template directory"));
            },
        };
        let width = column_width(&scanned);
        proof {
            name_column_width_at_least(scanned@, scanned@.len() as int);
        }
        let ghost vs = tviews(scanned@);
        let ghost pat = pattern_view(self.pattern);
        let mut kept: Vec<Template> = Vec::new();
        proof {
            assert(vs.take(0) =~= Seq::<(Seq<char>, u64, Seq<char>, u64)>::empty());
            assert(tviews(kept@) =~= filtered_tviews(vs.take(0), pat));
        }
        let mut i: usize = 0;
        while i < scanned.len()
            invariant
                0 <= i <= scanned@.len(),
                vs == tviews(scanned@),
                pat == pattern_view(self.pattern),
                tviews(kept@) == filtered_tviews(vs.take(i as int), pat),
            decreases scanned@.len() - i,
        {
            proof {
                assert(vs[i as int] == tview(scanned@[i as int]));
                filtered_tviews_snoc(vs.take(i as int), vs[i as int], pat);
                assert(vs.take(i + 1) =~= vs.take(i as int).push(vs[i as int]));
            }
            let keep = match &self.pattern {
                Some(p) => str_contains(scanned[i].info.name.as_str(), p.as_str()),
                None => true,
            };
            if keep {
                let t = Template {
                    info: crate::templates::TemplateInfo {
                        name: scanned[i].info.name.clone(),
                        iteration: scanned[i].info.iteration,
                    },
                    filename: scanned[i].filename.clone(),
                    filesize: scanned[i].filesize,
                };
                proof {
                    assert(tview(t) == vs[i as int]);
                    assert(tviews(kept@.push(t)) =~= tviews(kept@).push(tview(t)));
                }
                kept.push(t);
            }
            i = i + 1;
        }
        proof {
            assert(vs.take(scanned@.len() as int) =~= vs);
        }
        crate::templates::sort_templates(&mut kept, false);
        let rows = build_rows(&kept, self.flatten);
        proof {
            assert(vs.to_multiset() == file_tviews(store@).to_multiset());
            assert(templates_sorted(kept@, false));
            assert(tviews(kept@).to_multiset() == filtered_tviews(vs, pat).to_multiset());
        }
        Ok(RunOutcome::Listed { rows, width })
    }
}

impl RunCommand for ListCommand {
    fn run(&self, config: &Config, store: &Vec<StoredFile>, _inputs: &RunInputs) -> Result<
        RunOutcome,
        CommandError,
    > {
        self.plan(config, store)
    }
}

} // verus!