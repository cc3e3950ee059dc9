//! Command-line argument handling for the picker binary.
//!
//! `Args::parse` folds a vector of raw arguments into flags, a prompt, a
//! pre-selection, and the literal choices; `Args::into_chooser` then builds
//! the picker, splicing in lines read from standard input and clamping a
//! requested starting index to the last valid one.

use vstd::prelude::*;

use crate::chooser::first_index_of;
use crate::chooser::Chooser;
use crate::text::spec_starts_with;
use crate::text::str_after_prefix;
use crate::text::str_eq;
use crate::text::str_starts_with;

verus! {

/// Declares std::num::ParseIntError so a failed `--index` value can be
/// surfaced exactly as usize::from_str_radix reports it.
#[verifier::external_type_specification]
#[verifier::external_body]
pub struct ExParseIntError(std::num::ParseIntError);

/// An ASCII decimal digit.
pub open spec fn is_digit(c: char) -> bool {
    '0' <= c && c <= '9'
}

/// A nonempty run of ASCII decimal digits.
pub open spec fn all_digits(s: Seq<char>) -> bool {
    s.len() > 0 && forall|j: int| 0 <= j < s.len() ==> is_digit(s[j])
}

/// The number the digit run denotes.
pub open spec fn decimal_value(s: Seq<char>) -> int
    decreases s.len(),
{
    if s.len() == 0 {
        0
    } else {
        decimal_value(s.drop_last()) * 10 + (s.last() as int - '0' as int)
    }
}

/// The digits with one optional leading plus sign removed.
pub open spec fn strip_plus(s: Seq<char>) -> Seq<char> {
    if s.len() > 0 && s[0] == '+' {
        s.skip(1)
    } else {
        s
    }
}

/// The strings usize::from_str_radix accepts in base 10: an optional
/// leading `+`, then one or more digits, denoting a value that fits.
pub open spec fn is_usize_decimal(s: Seq<char>) -> bool {
    all_digits(strip_plus(s)) && decimal_value(strip_plus(s)) <= usize::MAX
}

/// Relies on usize::from_str_radix with radix 10: it accepts an optional
/// leading `+` followed by ASCII digits whose value fits in usize, and
/// rejects everything else.
#[verifier::external_body]
fn parse_usize_decimal(s: &str) -> (r: Result<usize, std::num::ParseIntError>)
    ensures
        match r {
            Ok(n) => is_usize_decimal(s@) && n as int == decimal_value(strip_plus(s@)),
            Err(_) => !is_usize_decimal(s@),
        },
{
    usize::from_str_radix(s, 10)
}

/// What the command line asked for, before standard input is consulted.
#[derive(Debug, Clone, PartialEq)]
pub struct Args {
    /// Print usage and exit.
    pub help: bool,
    /// Erase the interaction from the terminal when it ends.
    pub vanish: bool,
    /// The prompt to show above the list, if one was given.
    pub prompt: Option<String>,
    /// The text of the option to pre-select, if one was given.
    pub selection: Option<String>,
    /// The index to pre-select, if one was given.
    pub selected_index: Option<usize>,
    /// Where lines read from standard input go in the option list.
    pub stdin_index: Option<usize>,
    /// The options named directly on the command line.
    pub choices: Vec<String>,
}

/// The mathematical image of an `Args` value.
#[verifier::ext_equal]
pub ghost struct ArgsModel {
    pub help: bool,
    pub vanish: bool,
    pub prompt: Option<Seq<char>>,
    pub selection: Option<Seq<char>>,
    pub selected_index: Option<int>,
    pub stdin_index: Option<int>,
    pub choices: Seq<Seq<char>>,
}

impl View for Args {
    type V = ArgsModel;

    open spec fn view(&self) -> ArgsModel {
        ArgsModel {
            help: self.help,
            vanish: self.vanish,
            prompt: match self.prompt {
                Some(p) => Some(p@),
                None => None,
            },
            selection: match self.selection {
                Some(s) => Some(s@),
                None => None,
            },
            selected_index: match self.selected_index {
                Some(n) => Some(n as int),
                None => None,
            },
            stdin_index: match self.stdin_index {
                Some(n) => Some(n as int),
                None => None,
            },
            choices: self.choices.deep_view(),
        }
    }
}

/// The model every parse starts from: no flags, no prompt, no selection,
/// no choices.
pub open spec fn init_model() -> ArgsModel {
    ArgsModel {
        help: false,
        vanish: false,
        prompt: None,
        selection: None,
        selected_index: None,
        stdin_index: None,
        choices: Seq::empty(),
    }
}

/// Without any choice named on the command line, standard input supplies
/// the whole list.
pub open spec fn spec_finalize(m: ArgsModel) -> ArgsModel {
    if m.choices.len() == 0 {
        ArgsModel { stdin_index: Some(0int), ..m }
    } else {
        m
    }
}

/// One pass over the arguments from position `i` on, folding them into
/// `m`: flags set their field, `--prompt`, `--selection` and `--index`
/// consume the next argument (and are ignored without one), `-x=v` forms
/// carry their value inline, a lone `-` records where standard input's
/// lines go, `--` turns everything after it into literal choices, a bad
/// `--index` value stops the parse, and anything else is a choice.
pub open spec fn spec_parse_from(args: Seq<Seq<char>>, i: int, m: ArgsModel) -> Option<ArgsModel>
    decreases args.len() - i,
{
    if i < 0 || i >= args.len() {
        Some(spec_finalize(m))
    } else {
        let a = args[i];
        if a == "--help"@ || a == "-h"@ {
            spec_parse_from(args, i + 1, ArgsModel { help: true, ..m })
        } else if a == "--vanish"@ || a == "-v"@ {
            spec_parse_from(args, i + 1, ArgsModel { vanish: true, ..m })
        } else if a == "--prompt"@ || a == "-p"@ {
            if i + 1 < args.len() {
                spec_parse_from(args, i + 2, ArgsModel { prompt: Some(args[i + 1]), ..m })
            } else {
                spec_parse_from(args, i + 1, m)
            }
        } else if a == "--selection"@ || a == "-s"@ {
            if i + 1 < args.len() {
                spec_parse_from(args, i + 2, ArgsModel { selection: Some(args[i + 1]), ..m })
            } else {
                spec_parse_from(args, i + 1, m)
            }
        } else if a == "--index"@ || a == "-n"@ {
            if i + 1 < args.len() {
                if is_usize_decimal(args[i + 1]) {
                    spec_parse_from(
                        args,
                        i + 2,
                        ArgsModel {
                            selected_index: Some(decimal_value(strip_plus(args[i + 1]))),
                            ..m
                        },
                    )
                } else {
                    None
                }
            } else {
                spec_parse_from(args, i + 1, m)
            }
        } else if a == "-"@ {
            spec_parse_from(args, i + 1, ArgsModel { stdin_index: Some(i), ..m })
        } else if spec_starts_with(a, "-p="@) {
            spec_parse_from(
                args,
                i + 1,
                ArgsModel { prompt: Some(a.skip("-p="@.len() as int)), ..m },
            )
        } else if spec_starts_with(a, "--prompt="@) {
            spec_parse_from(
                args,
                i + 1,
                ArgsModel { prompt: Some(a.skip("--prompt="@.len() as int)), ..m },
            )
        } else if spec_starts_with(a, "-s="@) {
            spec_parse_from(
                args,
                i + 1,
                ArgsModel { selection: Some(a.skip("-s="@.len() as int)), ..m },
            )
        } else if spec_starts_with(a, "--selection="@) {
            spec_parse_from(
                args,
                i + 1,
                ArgsModel { selection: Some(a.skip("--selection="@.len() as int)), ..m },
            )
        } else if spec_starts_with(a, "-n="@) {
            if is_usize_decimal(a.skip("-n="@.len() as int)) {
                spec_parse_from(
                    args,
                    i + 1,
                    ArgsModel {
                        selected_index: Some(
                            decimal_value(strip_plus(a.skip("-n="@.len() as int))),
                        ),
                        ..m
                    },
                )
            } else {
                None
            }
        } else if spec_starts_with(a, "--index="@) {
            if is_usize_decimal(a.skip("--index="@.len() as int)) {
                spec_parse_from(
                    args,
                    i + 1,
                    ArgsModel {
                        selected_index: Some(
                            decimal_value(strip_plus(a.skip("--index="@.len() as int))),
                        ),
                        ..m
                    },
                )
            } else {
                None
            }
        } else if a == "--"@ {
            Some(spec_finalize(ArgsModel { choices: m.choices + args.skip(i + 1), ..m }))
        } else {
            spec_parse_from(args, i + 1, ArgsModel { choices: m.choices.push(a), ..m })
        }
    }
}

/// What the whole argument vector parses to, or `None` when an `--index`
/// value is not a usize decimal.
pub open spec fn spec_parse(args: Seq<Seq<char>>) -> Option<ArgsModel> {
    spec_parse_from(args, 0, init_model())
}

/// The option list after standard input's lines are spliced in at the
/// recorded position.
pub open spec fn spec_spliced(m: ArgsModel, lines: Seq<Seq<char>>) -> Seq<Seq<char>> {
    match m.stdin_index {
        Some(i) => m.choices.take(i) + lines + m.choices.skip(i),
        None => m.choices,
    }
}

/// The prompt to show: the given one, or the default.
pub open spec fn spec_prompt_or_default(m: ArgsModel) -> Seq<char> {
    match m.prompt {
        Some(p) => p,
        None => "Choose one:"@,
    }
}

/// The starting index a numeric pre-selection yields: clamped to the last
/// valid index of the final list, zero without a request or without any
/// option to point at.
pub open spec fn spec_preselect(m: ArgsModel, n: int) -> int {
    match m.selected_index {
        Some(idx) => if n == 0 {
            0
        } else if idx >= n {
            n - 1
        } else {
            idx
        },
        None => 0,
    }
}

/// The starting index once a textual pre-selection is honoured too: the
/// first option with the requested text wins over a numeric request.
pub open spec fn spec_start_index(m: ArgsModel, cs: Seq<Seq<char>>) -> int {
    match m.selection {
        Some(v) => match first_index_of(cs, v) {
            Some(j) => j,
            None => spec_preselect(m, cs.len() as int),
        },
        None => spec_preselect(m, cs.len() as int),
    }
}

impl Args {
    /// Folds the raw command-line arguments into an `Args` value, exactly
    /// as `spec_parse` describes; a malformed `--index` value surfaces as
    /// the error usize::from_str_radix reported.
    pub fn parse(args: Vec<String>) -> (r: Result<Args, std::num::ParseIntError>)
        ensures
            match r {
                Ok(a) => spec_parse(args.deep_view()) == Some(a@),
                Err(_) => spec_parse(args.deep_view()) is None,
            },
    {
        let ghost adv = args.deep_view();
        let mut result = Args {
            help: false,
            vanish: false,
            prompt: None,
            selection: None,
            selected_index: None,
            stdin_index: None,
            choices: Vec::new(),
        };
        proof {
            assert(result@ =~= init_model());
        }
        let mut i: usize = 0;
        while i < args.len()
            invariant
                i <= args.len(),
                adv == args.deep_view(),
                spec_parse_from(adv, i as int, result@) == spec_parse(adv),
            decreases args.len() - i,
        {
            let ghost m_prev = result@;
            proof {
                assert(adv[i as int] == args@[i as int]@);
            }
            let arg = args[i].as_str();
            if str_eq(arg, "--help") || str_eq(arg, "-h") {
                result.help = true;
                i = i + 1;
                proof {
                    assert(result@ =~= ArgsModel { help: true, ..m_prev });
                }
            } else if str_eq(arg, "--vanish") || str_eq(arg, "-v") {
                result.vanish = true;
                i = i + 1;
                proof {
                    assert(result@ =~= ArgsModel { vanish: true, ..m_prev });
                }
            } else if str_eq(arg, "--prompt") || str_eq(arg, "-p") {
                if i + 1 < args.len() {
                    proof {
                        assert(adv[i as int + 1] == args@[i as int + 1]@);
                    }
                    result.prompt = Some(args[i + 1].clone());
                    i = i + 2;
                    proof {
                        assert(result@ =~= ArgsModel {
                            prompt: Some(adv[i as int - 1]),
                            ..m_prev
                        });
                    }
                } else {
                    i = i + 1;
                }
            } else if str_eq(arg, "--selection") || str_eq(arg, "-s") {
                if i + 1 < args.len() {
                    proof {
                        assert(adv[i as int + 1] == args@[i as int + 1]@);
                    }
                    result.selection = Some(args[i + 1].clone());
                    i = i + 2;
                    proof {
                        assert(result@ =~= ArgsModel {
                            selection: Some(adv[i as int - 1]),
                            ..m_prev
                        });
                    }
                } else {
                    i = i + 1;
                }
            } else if str_eq(arg, "--index") || str_eq(arg, "-n") {
                if i + 1 < args.len() {
                    proof {
                        assert(adv[i as int + 1] == args@[i as int + 1]@);
                    }
                    match parse_usize_decimal(args[i + 1].as_str()) {
                        Ok(n) => {
                            result.selected_index = Some(n);
                            i = i + 2;
                            proof {
                                assert(result@ =~= ArgsModel {
                                    selected_index: Some(
                                        decimal_value(strip_plus(adv[i as int - 1])),
                                    ),
                                    ..m_prev
                                });
                            }
                        },
                        Err(e) => {
                            return Err(e);
                        },
                    }
                } else {
                    i = i + 1;
                }
            } else if str_eq(arg, "-") {
                result.stdin_index = Some(i);
                i = i + 1;
                proof {
                    assert(result@ =~= ArgsModel {
                        stdin_index: Some(i as int - 1),
                        ..m_prev
                    });
                }
            } else if str_starts_with(arg, "-p=") {
                let rest = str_after_prefix(arg, "-p=");
                result.prompt = Some(rest);
                i = i + 1;
                proof {
                    assert(result@ =~= ArgsModel {
                        prompt: Some(adv[i as int - 1].skip("-p="@.len() as int)),
                        ..m_prev
                    });
                }
            } else if str_starts_with(arg, "--prompt=") {
                let rest = str_after_prefix(arg, "--prompt=");
                result.prompt = Some(rest);
                i = i + 1;
                proof {
                    assert(result@ =~= ArgsModel {
                        prompt: Some(adv[i as int - 1].skip("--prompt="@.len() as int)),
                        ..m_prev
                    });
                }
            } else if str_starts_with(arg, "-s=") {
                let rest = str_after_prefix(arg, "-s=");
                result.selection = Some(rest);
                i = i + 1;
                proof {
                    assert(result@ =~= ArgsModel {
                        selection: Some(adv[i as int - 1].skip("-s="@.len() as int)),
                        ..m_prev
                    });
                }
            } else if str_starts_with(arg, "--selection=") {
                let rest = str_after_prefix(arg, "--selection=");
                result.selection = Some(rest);
                i = i + 1;
                proof {
                    assert(result@ =~= ArgsModel {
                        selection: Some(adv[i as int - 1].skip("--selection="@.len() as int)),
                        ..m_prev
                    });
                }
            } else if str_starts_with(arg, "-n=") {
                let rest = str_after_prefix(arg, "-n=");
                match parse_usize_decimal(rest.as_str()) {
                    Ok(n) => {
                        result.selected_index = Some(n);
                        i = i + 1;
                        proof {
                            assert(result@ =~= ArgsModel {
                                selected_index: Some(
                                    decimal_value(
                                        strip_plus(
                                            adv[i as int - 1].skip("-n="@.len() as int),
                                        ),
                                    ),
                                ),
                                ..m_prev
                            });
                        }
                    },
                    Err(e) => {
                        return Err(e);
                    },
                }
            } else if str_starts_with(arg, "--index=") {
                let rest = str_after_prefix(arg, "--index=");
                match parse_usize_decimal(rest.as_str()) {
                    Ok(n) => {
                        result.selected_index = Some(n);
                        i = i + 1;
                        proof {
                            assert(result@ =~= ArgsModel {
                                selected_index: Some(
                                    decimal_value(
                                        strip_plus(
                                            adv[i as int - 1].skip("--index="@.len() as int),
                                        ),
                                    ),
                                ),
                                ..m_prev
                            });
                        }
                    },
                    Err(e) => {
                        return Err(e);
                    },
                }
            } else if str_eq(arg, "--") {
                let ghost cs_prev = result.choices@;
                let mut j: usize = i + 1;
                while j < args.len()
                    invariant
                        i < args.len(),
                        i + 1 <= j <= args.len(),
                        adv == args.deep_view(),
                        result.choices@ == cs_prev + args@.subrange(i as int + 1, j as int),
                        result@.help == m_prev.help,
                        result@.vanish == m_prev.vanish,
                        result@.prompt == m_prev.prompt,
                        result@.selection == m_prev.selection,
                        result@.selected_index == m_prev.selected_index,
                        result@.stdin_index == m_prev.stdin_index,
                    decreases args.len() - j,
                {
                    result.choices.push(args[j].clone());
                    j = j + 1;
                    proof {
                        assert(result.choices@ =~= cs_prev + args@.subrange(
                            i as int + 1,
                            j as int,
                        ));
                    }
                }
                proof {
                    assert(result@.choices =~= m_prev.choices + adv.skip(i as int + 1));
                    assert(result@ =~= ArgsModel {
                        choices: m_prev.choices + adv.skip(i as int + 1),
                        ..m_prev
                    });
                }
                i = args.len();
            } else {
                result.choices.push(args[i].clone());
                i = i + 1;
                proof {
                    assert(result@ =~= ArgsModel {
                        choices: m_prev.choices.push(adv[i as int - 1]),
                        ..m_prev
                    });
                }
            }
        }
        let ghost m_end = result@;
        if result.choices.is_empty() {
            result.stdin_index = Some(0);
            proof {
                assert(result@ =~= spec_finalize(m_end));
            }
        } else {
            proof {
                assert(result@ =~= spec_finalize(m_end));
            }
        }
        Ok(result)
    }

    /// Builds the picker: the prompt falls back to the default, the lines
    /// read from standard input are spliced in at the recorded position,
    /// and the starting index honours `--index` (clamped to the last valid
    /// index) and then `--selection`.
    pub fn into_chooser(self, stdin_lines: Vec<String>) -> (r: Chooser)
        requires
            self.stdin_index matches Some(i) ==> i <= self.choices.len(),
        ensures
            r.vanish == self@.vanish,
            r.prompt@ == spec_prompt_or_default(self@),
            r.choices.deep_view() == spec_spliced(self@, stdin_lines.deep_view()),
            r.current_choice as int == spec_start_index(
                self@,
                spec_spliced(self@, stdin_lines.deep_view()),
            ),
    {
        let ghost m = self@;
        let ghost ldv = stdin_lines.deep_view();
        let Args { help: _, vanish, prompt, selection, selected_index, stdin_index, choices } =
            self;
        let prompt_text = match prompt {
            Some(p) => p,
            None => "Choose one:".to_owned(),
        };
        let mut cs = choices;
        if let Some(index) = stdin_index {
            let ghost cs0 = cs@;
            let mut k: usize = 0;
            proof {
                assert(cs@ =~= cs0.take(index as int) + stdin_lines@.take(0) + cs0.skip(
                    index as int,
                ));
            }
            while k < stdin_lines.len()
                invariant
                    k <= stdin_lines.len(),
                    index <= cs0.len(),
                    cs@ == cs0.take(index as int) + stdin_lines@.take(k as int) + cs0.skip(
                        index as int,
                    ),
                decreases stdin_lines.len() - k,
            {
                let cur_len = cs.len();
                proof {
                    assert(cs@.len() == cs0.len() + k);
                    assert(index + k <= cur_len);
                }
                cs.insert(index + k, stdin_lines[k].clone());
                k = k + 1;
                proof {
                    assert(cs@ =~= cs0.take(index as int) + stdin_lines@.take(k as int)
                        + cs0.skip(index as int));
                }
            }
            proof {
                assert(stdin_lines@.take(k as int) =~= stdin_lines@);
                assert(cs.deep_view() =~= m.choices.take(index as int) + ldv + m.choices.skip(
                    index as int,
                ));
            }
        }
        let ghost spliced = spec_spliced(m, ldv);
        proof {
            assert(cs.deep_view() == spliced);
        }
        let mut current: usize = 0;
        if let Some(idx) = selected_index {
            if cs.len() == 0 {
                current = 0;
            } else if idx >= cs.len() {
                current = cs.len() - 1;
            } else {
                current = idx;
            }
        }
        proof {
            assert(current as int == spec_preselect(m, spliced.len() as int));
        }
        let mut chooser = Chooser {
            vanish,
            prompt: prompt_text,
            choices: cs,
            current_choice: current,
        };
        if let Some(val) = selection {
            chooser.set_choice(val.as_str());
        }
        chooser
    }
}

} // verus!
