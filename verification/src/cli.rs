//! Pieces of the interactive command line that are plain computation:
//! suggestion filtering for the name completer, and line trimming for
//! prompt input. The prompts themselves live with the surrounding
//! program.

use vstd::prelude::*;

use crate::commands::command::Command;
use crate::strutil::{str_contains, str_contains_spec, string_views};

verus! {

/// The parsed command line: an optional configuration path and the
/// requested command.
pub struct Cli {
    pub config_path: Option<String>,
    pub command: Option<Command>,
}

/// Helpers for prompting on the command line.
pub struct CliUtils;

impl CliUtils {
    /// Strips one trailing line break ("\n" or "\r\n") from a read
    /// line, as prompt input handling does.
    pub fn trim_line_ending(text: &str) -> (r: &str)
        ensures
            r@ == trim_line_ending_spec(text@),
    {
        let len = text.unicode_len();
        let without_nl = if len > 0 && text.get_char(len - 1) == '\n' {
            let r = text.substring_char(0, len - 1);
            proof {
                assert(text@.subrange(0, len - 1) =~= text@.drop_last());
            }
            r
        } else {
            text
        };
        let wlen = without_nl.unicode_len();
        if wlen > 0 && without_nl.get_char(wlen - 1) == '\r' {
            let r = without_nl.substring_char(0, wlen - 1);
            proof {
                assert(without_nl@.subrange(0, wlen - 1) =~= without_nl@.drop_last());
            }
            r
        } else {
            without_nl
        }
    }
}

/// One trailing '\n' removed, then one trailing '\r'.
pub open spec fn trim_line_ending_spec(text: Seq<char>) -> Seq<char> {
    let without_nl = if text.len() > 0 && text[text.len() - 1] == '\n' {
        text.drop_last()
    } else {
        text
    };
    if without_nl.len() > 0 && without_nl[without_nl.len() - 1] == '\r' {
        without_nl.drop_last()
    } else {
        without_nl
    }
}

/// The completion source for template names: the known names, filtered
/// by what was typed so far.
pub struct TextCompleter {
    pub options: Vec<String>,
}

/// The options that contain `input`, in order.
pub open spec fn suggestions_spec(options: Seq<Seq<char>>, input: Seq<char>) -> Seq<Seq<char>>
    decreases options.len(),
{
    if options.len() == 0 {
        Seq::empty()
    } else {
        let rest = suggestions_spec(options.drop_last(), input);
        if str_contains_spec(options.last(), input) {
            rest.push(options.last())
        } else {
            rest
        }
    }
}

proof fn suggestions_spec_snoc(options: Seq<Seq<char>>, o: Seq<char>, input: Seq<char>)
    ensures
        suggestions_spec(options.push(o), input) == if str_contains_spec(o, input) {
            suggestions_spec(options, input).push(o)
        } else {
            suggestions_spec(options, input)
        },
{
    assert(options.push(o).drop_last() =~= options);
    assert(options.push(o).last() == o);
}

impl TextCompleter {
    pub fn new(options: Vec<String>) -> (r: Self)
        ensures
            r.options@ == options@,
    {
        Self { options }
    }

    /// The stored options that contain the typed input, in order.
    pub fn get_suggestions(&self, input: &str) -> (r: Vec<String>)
        ensures
            string_views(r@) == suggestions_spec(string_views(self.options@), input@),
    {
        let ghost all = string_views(self.options@);
        let mut out: Vec<String> = Vec::new();
        proof {
            assert(all.take(0) =~= Seq::<Seq<char>>::empty());
            assert(string_views(out@) =~= suggestions_spec(all.take(0), input@));
        }
        let mut i: usize = 0;
        while i < self.options.len()
            invariant
                0 <= i <= self.options@.len(),
                all == string_views(self.options@),
                string_views(out@) == suggestions_spec(all.take(i as int), input@),
            decreases self.options@.len() - i,
        {
            proof {
                suggestions_spec_snoc(all.take(i as int), all[i as int], input@);
                assert(all.take(i + 1) =~= all.take(i as int).push(all[i as int]));
            }
            if str_contains(self.options[i].as_str(), input) {
                let s = self.options[i].clone();
                proof {
                    assert(string_views(out@.push(s)) =~= string_views(out@).push(s@));
                }
                out.push(s);
            }
            i = i + 1;
        }
        proof {
            assert(all.take(self.options@.len() as int) =~= all);
        }
        out
    }

    /// The completion to apply: the highlighted suggestion when there
    /// is one, else the first matching option.
    pub fn get_completion(&self, input: &str, highlighted_suggestion: Option<String>) -> (r:
        Option<String>)
        ensures
            match highlighted_suggestion {
                Some(h) => r matches Some(s) && s@ == h@,
                None => {
                    let sugg = suggestions_spec(string_views(self.options@), input@);
                    match r {
                        Some(s) => sugg.len() > 0 && s@ == sugg[0],
                        None => sugg.len() == 0,
                    }
                },
            },
    {
        if let Some(suggestion) = highlighted_suggestion {
            return Some(suggestion);
        }
        let suggestions = self.get_suggestions(input);
        if suggestions.len() > 0 {
            let first = suggestions[0].clone();
            proof {
                assert(string_views(suggestions@)[0] == first@);
            }
            Some(first)
        } else {
            None
        }
    }
}

} // verus!
