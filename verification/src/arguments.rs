//! What the program is asked to do, by its arguments.
use vstd::prelude::*;

use crate::error::{AppError, AppErrorModel};
use crate::llm::openrouter::{truncate, truncated};
use crate::text::{join, join_texts, number_value, parse_number, same_text, views};

verus! {

/// What the program does.
#[derive(Debug)]
pub enum RunMode {
    Overlay,
    Terminal,
    Benchmark { audio: String, label: String, reference: Option<String> },
    RagIndex { source: String },
    RagQuery { query: String, top_k: usize, repeat: usize },
}

/// The value of a [`RunMode`].
#[verifier::ext_equal]
pub enum RunModeModel {
    Overlay,
    Terminal,
    Benchmark { audio: Seq<char>, label: Seq<char>, reference: Option<Seq<char>> },
    RagIndex { source: Seq<char> },
    RagQuery { query: Seq<char>, top_k: usize, repeat: usize },
}

impl View for RunMode {
    type V = RunModeModel;

    open spec fn view(&self) -> RunModeModel {
        match *self {
            RunMode::Overlay => RunModeModel::Overlay,
            RunMode::Terminal => RunModeModel::Terminal,
            RunMode::Benchmark { audio, label, reference } => RunModeModel::Benchmark {
                audio: audio@,
                label: label@,
                reference: match reference {
                    Some(path) => Some(path@),
                    None => None,
                },
            },
            RunMode::RagIndex { source } => RunModeModel::RagIndex { source: source@ },
            RunMode::RagQuery { query, top_k, repeat } => RunModeModel::RagQuery {
                query: query@,
                top_k,
                repeat,
            },
        }
    }
}

/// What is asked for, or why it is nothing.
pub type Wish = Result<RunModeModel, Seq<char>>;

/// Whether a mode or an error is the one that is meant.
pub open spec fn meets(r: Result<RunMode, AppError>, wish: Wish) -> bool {
    match r {
        Ok(mode) => wish == Ok::<RunModeModel, Seq<char>>(mode@),
        Err(error) => wish is Err && error@ == AppErrorModel::Argument(wish->Err_0),
    }
}

/// What is asked for by the arguments behind `--benchmark`: a file, perhaps a
/// label, perhaps a reference.
pub open spec fn benchmark_wish(args: Seq<Seq<char>>) -> Wish {
    let baseline = "baseline"@;
    if args.len() == 0 {
        Err("--benchmark requires AUDIO and accepts [LABEL] [--reference FILE]"@)
    } else {
        let audio = args[0];
        if args.len() == 1 {
            Ok(RunModeModel::Benchmark { audio, label: baseline, reference: None })
        } else if args[1] == "--reference"@ {
            if args.len() == 2 {
                Err("--reference requires a file path"@)
            } else if args.len() == 3 {
                Ok(RunModeModel::Benchmark { audio, label: baseline, reference: Some(args[2]) })
            } else {
                Err("unexpected benchmark argument: "@ + args[3])
            }
        } else if args.len() == 2 {
            Ok(RunModeModel::Benchmark { audio, label: args[1], reference: None })
        } else if args[2] != "--reference"@ {
            Err("unexpected benchmark argument: "@ + args[2])
        } else if args.len() == 3 {
            Err("--reference requires a file path"@)
        } else if args.len() == 4 {
            Ok(RunModeModel::Benchmark { audio, label: args[1], reference: Some(args[3]) })
        } else {
            Err("unexpected benchmark argument: "@ + args[4])
        }
    }
}

/// What was read of the arguments behind `rag query`.
#[verifier::ext_equal]
pub struct QueryModel {
    pub parts: Seq<Seq<char>>,
    pub top_k: usize,
    pub repeat: usize,
}

/// Whether an argument sets a number.
pub open spec fn sets_number(argument: Seq<char>) -> bool {
    argument == "--top"@ || argument == "--repeat"@
}

/// The number that a text behind an argument is.
pub open spec fn number_wish(argument: Seq<char>, value: Seq<char>) -> Result<usize, Seq<char>> {
    match number_value(value, usize::MAX as nat) {
        Err(_) => Err(
            "invalid "@ + argument + " value `"@ + value + "`; expected a number"@,
        ),
        Ok(number) => if number == 0 {
            Err(argument + " must be greater than zero"@)
        } else {
            Ok(number as usize)
        },
    }
}

/// What is read of arguments, behind what was read before.
pub open spec fn query_parts(args: Seq<Seq<char>>, before: QueryModel) -> Result<
    QueryModel,
    Seq<char>,
>
    decreases args.len(),
{
    if args.len() == 0 {
        Ok(before)
    } else if sets_number(args[0]) {
        if args.len() == 1 {
            Err(args[0] + " requires a positive number"@)
        } else {
            match number_wish(args[0], args[1]) {
                Err(reason) => Err(reason),
                Ok(number) => query_parts(
                    args.skip(2),
                    if args[0] == "--top"@ {
                        QueryModel { top_k: number, ..before }
                    } else {
                        QueryModel { repeat: number, ..before }
                    },
                ),
            }
        }
    } else {
        query_parts(
            args.drop_first(),
            QueryModel { parts: before.parts.push(args[0]), ..before },
        )
    }
}

/// What is asked for by the arguments behind `rag query`.
pub open spec fn query_wish(args: Seq<Seq<char>>) -> Wish {
    match query_parts(args, QueryModel { parts: Seq::empty(), top_k: 5, repeat: 1 }) {
        Err(reason) => Err(reason),
        Ok(query) => if query.parts.len() == 0 {
            Err("rag query requires question text"@)
        } else {
            Ok(
                RunModeModel::RagQuery {
                    query: join(query.parts, " "@),
                    top_k: query.top_k,
                    repeat: query.repeat,
                },
            )
        },
    }
}

/// What is asked for by the arguments behind `rag`.
pub open spec fn rag_wish(args: Seq<Seq<char>>) -> Wish {
    if args.len() == 0 {
        Err("rag requires an index or query command"@)
    } else if args[0] == "index"@ {
        if args.len() == 1 {
            Err("rag index requires a Markdown file or directory"@)
        } else if args.len() > 2 {
            Err("unexpected rag index argument: "@ + args[2])
        } else {
            Ok(RunModeModel::RagIndex { source: args[1] })
        }
    } else if args[0] == "query"@ {
        query_wish(args.drop_first())
    } else {
        Err("unknown rag command `"@ + args[0] + "`; expected index or query"@)
    }
}

/// What is asked for by the arguments of the program.
pub open spec fn wish(args: Seq<Seq<char>>) -> Wish {
    if args.len() == 0 {
        Ok(RunModeModel::Overlay)
    } else if args[0] == "--overlay"@ && args.len() == 1 {
        Ok(RunModeModel::Overlay)
    } else if args[0] == "--terminal"@ && args.len() == 1 {
        Ok(RunModeModel::Terminal)
    } else if args[0] == "--benchmark"@ {
        benchmark_wish(args.drop_first())
    } else if args[0] == "rag"@ {
        rag_wish(args.drop_first())
    } else {
        Err(
            "unknown argument `"@ + args[0]
                + "`; expected --overlay, --terminal, --benchmark, or rag"@,
        )
    }
}

fn refuse(first: &str, second: &str, third: &str) -> (r: Result<RunMode, AppError>)
    ensures
        r is Err,
        r->Err_0@ == AppErrorModel::Argument(first@ + second@ + third@),
{
    let mut reason = first.to_owned();
    reason.append(second);
    reason.append(third);
    Err(AppError::Argument(reason))
}

fn refuse_with(reason: &str) -> (r: Result<RunMode, AppError>)
    ensures
        r is Err,
        r->Err_0@ == AppErrorModel::Argument(reason@),
{
    Err(AppError::Argument(reason.to_owned()))
}

fn refuse_about(reason: &str, argument: &str) -> (r: Result<RunMode, AppError>)
    ensures
        r is Err,
        r->Err_0@ == AppErrorModel::Argument(reason@ + argument@),
{
    let mut text = reason.to_owned();
    text.append(argument);
    Err(AppError::Argument(text))
}

fn benchmark_mode(args: &Vec<String>) -> (r: Result<RunMode, AppError>)
    requires
        args@.len() > 0,
    ensures
        meets(r, benchmark_wish(views(args@).drop_first())),
{
    let ghost rest = views(args@).drop_first();
    let n: usize = args.len() - 1;
    if n == 0 {
        return refuse_with("--benchmark requires AUDIO and accepts [LABEL] [--reference FILE]");
    }
    assert(rest[0] == args@[1]@);
    let audio = args[1].clone();
    if n == 1 {
        return Ok(RunMode::Benchmark { audio, label: "baseline".to_owned(), reference: None });
    }
    assert(rest[1] == args@[2]@);
    if same_text(args[2].as_str(), "--reference") {
        if n == 2 {
            return refuse_with("--reference requires a file path");
        }
        assert(rest[2] == args@[3]@);
        if n == 3 {
            return Ok(
                RunMode::Benchmark {
                    audio,
                    label: "baseline".to_owned(),
                    reference: Some(args[3].clone()),
                },
            );
        }
        assert(rest[3] == args@[4]@);
        return refuse_about("unexpected benchmark argument: ", args[4].as_str());
    }
    if n == 2 {
        return Ok(RunMode::Benchmark { audio, label: args[2].clone(), reference: None });
    }
    assert(rest[2] == args@[3]@);
    if !same_text(args[3].as_str(), "--reference") {
        return refuse_about("unexpected benchmark argument: ", args[3].as_str());
    }
    if n == 3 {
        return refuse_with("--reference requires a file path");
    }
    assert(rest[3] == args@[4]@);
    if n == 4 {
        return Ok(
            RunMode::Benchmark {
                audio,
                label: args[2].clone(),
                reference: Some(args[4].clone()),
            },
        );
    }
    assert(rest[4] == args@[5]@);
    refuse_about("unexpected benchmark argument: ", args[5].as_str())
}

/// What is asked for by the arguments behind `rag query`, which begin at
/// `start`.
pub fn parse_rag_query(args: &Vec<String>, start: usize) -> (r: Result<RunMode, AppError>)
    requires
        start <= args@.len(),
    ensures
        meets(r, query_wish(views(args@).skip(start as int))),
{
    let ghost all = views(args@);
    let ghost meant = query_parts(
        all.skip(start as int),
        QueryModel { parts: Seq::empty(), top_k: 5, repeat: 1 },
    );
    let mut parts: Vec<String> = Vec::new();
    let mut top_k: usize = 5;
    let mut repeat: usize = 1;
    let mut i: usize = start;
    assert(views(parts@) =~= Seq::empty());
    while i < args.len()
        invariant
            all == views(args@),
            start <= i <= args@.len(),
            meant == query_parts(
                all.skip(start as int),
                QueryModel { parts: Seq::empty(), top_k: 5, repeat: 1 },
            ),
            meant == query_parts(
                all.skip(i as int),
                QueryModel { parts: views(parts@), top_k, repeat },
            ),
        decreases args@.len() - i,
    {
        let ghost rest = all.skip(i as int);
        assert(rest[0] == args@[i as int]@);
        let argument = args[i].as_str();
        if same_text(argument, "--top") || same_text(argument, "--repeat") {
            if args.len() - i < 2 {
                return refuse_about(argument, " requires a positive number");
            }
            assert(rest[1] == args@[i + 1]@);
            let value = args[i + 1].as_str();
            let number: usize = match parse_number(value, usize::MAX as u64) {
                Ok(number) => number as usize,
                Err(_) => {
                    let mut reason = "invalid ".to_owned();
                    reason.append(argument);
                    reason.append(" value `");
                    reason.append(value);
                    reason.append("`; expected a number");
                    return refuse_with(reason.as_str());
                },
            };
            if number == 0 {
                return refuse_about(argument, " must be greater than zero");
            }
            assert(rest.skip(2) =~= all.skip(i + 2));
            if same_text(argument, "--top") {
                top_k = number;
            } else {
                repeat = number;
            }
            i += 2;
        } else {
            let ghost before = views(parts@);
            let ghost model = args@[i as int]@;
            parts.push(args[i].clone());
            assert(views(parts@) =~= before.push(model));
            assert(rest.drop_first() =~= all.skip(i + 1));
            i += 1;
        }
    }
    assert(views(parts@).len() == parts@.len());
    if parts.len() == 0 {
        return refuse_with("rag query requires question text");
    }
    Ok(RunMode::RagQuery { query: join_texts(&parts, " "), top_k, repeat })
}

fn rag_mode(args: &Vec<String>) -> (r: Result<RunMode, AppError>)
    requires
        args@.len() > 0,
    ensures
        meets(r, rag_wish(views(args@).drop_first())),
{
    let ghost rest = views(args@).drop_first();
    if args.len() == 1 {
        return refuse_with("rag requires an index or query command");
    }
    assert(rest[0] == args@[1]@);
    if same_text(args[1].as_str(), "index") {
        if args.len() == 2 {
            return refuse_with("rag index requires a Markdown file or directory");
        }
        assert(rest[1] == args@[2]@);
        if args.len() > 3 {
            assert(rest[2] == args@[3]@);
            return refuse_about("unexpected rag index argument: ", args[3].as_str());
        }
        return Ok(RunMode::RagIndex { source: args[2].clone() });
    }
    if same_text(args[1].as_str(), "query") {
        assert(rest.drop_first() =~= views(args@).skip(2));
        return parse_rag_query(args, 2);
    }
    refuse("unknown rag command `", args[1].as_str(), "`; expected index or query")
}

/// What is asked for by the arguments of the program, its name left out.
pub fn run_mode(args: &Vec<String>) -> (r: Result<RunMode, AppError>)
    ensures
        meets(r, wish(views(args@))),
{
    if args.len() == 0 {
        return Ok(RunMode::Overlay);
    }
    let ghost all = views(args@);
    assert(all[0] == args@[0]@);
    let command = args[0].as_str();
    if same_text(command, "--overlay") && args.len() == 1 {
        return Ok(RunMode::Overlay);
    }
    if same_text(command, "--terminal") && args.len() == 1 {
        return Ok(RunMode::Terminal);
    }
    if same_text(command, "--benchmark") {
        return benchmark_mode(args);
    }
    if same_text(command, "rag") {
        return rag_mode(args);
    }
    refuse(
        "unknown argument `",
        command,
        "`; expected --overlay, --terminal, --benchmark, or rag",
    )
}

/// The beginning of a text, with a mark where something is missing.
pub fn excerpt(text: &str, max_chars: usize) -> (r: String)
    ensures
        r@ == truncated(text@, max_chars as nat),
{
    truncate(text, max_chars)
}

/// A number is read from digits and must not be zero.
pub proof fn numbers_are_greater_than_zero(argument: Seq<char>, value: Seq<char>)
    ensures
        number_wish(argument, value) is Ok <==> (number_value(value, usize::MAX as nat) matches Ok(
            number,
        ) && number > 0),
        number_wish(argument, value) matches Ok(n) ==> n > 0 && number_value(
            value,
            usize::MAX as nat,
        ) == Ok::<nat, crate::text::NumberFault>(n as nat),
        number_value(value, usize::MAX as nat) == Ok::<nat, crate::text::NumberFault>(0)
            ==> number_wish(argument, value) == Err::<usize, Seq<char>>(
            argument + " must be greater than zero"@,
        ),
        number_value(value, usize::MAX as nat) is Err ==> number_wish(argument, value) == Err::<
            usize,
            Seq<char>,
        >("invalid "@ + argument + " value `"@ + value + "`; expected a number"@),
{
    number_is_bounded(value, usize::MAX as nat);
}

proof fn number_is_bounded(value: Seq<char>, max: nat)
    ensures
        number_value(value, max) matches Ok(number) ==> number <= max,
{
    let digits = if value.len() > 0 && value[0] == '+' {
        value.drop_first()
    } else {
        value
    };
    digits_are_bounded(digits, max);
    digits_are_bounded(value, max);
}

proof fn digits_are_bounded(s: Seq<char>, max: nat)
    ensures
        crate::text::digits_value(s, max) matches Ok(number) ==> number <= max,
    decreases s.len(),
{
    if s.len() > 0 {
        digits_are_bounded(s.drop_last(), max);
    }
}

/// The words of a question are all that are neither an option nor its value, in
/// order; each option counts wherever it stands, and the last one if it stands
/// twice.
pub proof fn questions_are_read_around_options(
    args: Seq<Seq<char>>,
    before: QueryModel,
    word: Seq<char>,
    value: Seq<char>,
)
    requires
        query_parts(args, before) is Ok,
    ensures
        ({
            let read = query_parts(args, before)->Ok_0;
            &&& !sets_number(word) ==> query_parts(args.push(word), before) == Ok::<
                QueryModel,
                Seq<char>,
            >(QueryModel { parts: read.parts.push(word), ..read })
            &&& sets_number(word) ==> query_parts(args.push(word), before) == Err::<
                QueryModel,
                Seq<char>,
            >(word + " requires a positive number"@)
            &&& sets_number(word) ==> (number_wish(word, value) matches Ok(number) ==> query_parts(
                args.push(word).push(value),
                before,
            ) == Ok::<QueryModel, Seq<char>>(
                if word == "--top"@ {
                    QueryModel { top_k: number, ..read }
                } else {
                    QueryModel { repeat: number, ..read }
                },
            ))
            &&& sets_number(word) ==> (number_wish(word, value) matches Err(reason) ==> query_parts(
                args.push(word).push(value),
                before,
            ) == Err::<QueryModel, Seq<char>>(reason))
        }),
        sets_number(word) <==> word == "--top"@ || word == "--repeat"@,
    decreases args.len(),
{
    let one = args.push(word);
    let two = one.push(value);
    if args.len() == 0 {
        assert(one[0] == word && two[0] == word && two[1] == value);
        assert(one.drop_first() =~= Seq::empty());
        assert(two.skip(2) =~= Seq::empty());
        if sets_number(word) {
            if let Ok(number) = number_wish(word, value) {
                let next = if word == "--top"@ {
                    QueryModel { top_k: number, ..before }
                } else {
                    QueryModel { repeat: number, ..before }
                };
                assert(query_parts(two.skip(2), next) == Ok::<QueryModel, Seq<char>>(next));
            }
        } else {
            let next = QueryModel { parts: before.parts.push(word), ..before };
            assert(query_parts(one.drop_first(), next) == Ok::<QueryModel, Seq<char>>(next));
        }
    } else if sets_number(args[0]) {
        let number = number_wish(args[0], args[1])->Ok_0;
        let next = if args[0] == "--top"@ {
            QueryModel { top_k: number, ..before }
        } else {
            QueryModel { repeat: number, ..before }
        };
        assert(args.len() > 1);
        assert(one[0] == args[0] && one[1] == args[1] && two[0] == args[0] && two[1] == args[1]);
        assert(one.skip(2) =~= args.skip(2).push(word));
        assert(two.skip(2) =~= args.skip(2).push(word).push(value));
        questions_are_read_around_options(args.skip(2), next, word, value);
    } else {
        let next = QueryModel { parts: before.parts.push(args[0]), ..before };
        assert(one[0] == args[0] && two[0] == args[0]);
        assert(one.drop_first() =~= args.drop_first().push(word));
        assert(two.drop_first() =~= args.drop_first().push(word).push(value));
        questions_are_read_around_options(args.drop_first(), next, word, value);
    }
}

/// A question is its words with a blank between each two; without options the
/// five best passages are looked up once.
pub proof fn questions_are_their_words(args: Seq<Seq<char>>)
    requires
        args.len() > 0,
        forall|k: int| 0 <= k < args.len() ==> !sets_number(#[trigger] args[k]),
    ensures
        query_wish(args) == Ok::<RunModeModel, Seq<char>>(
            RunModeModel::RagQuery { query: join(args, seq![' ']), top_k: 5, repeat: 1 },
        ),
        query_wish(Seq::empty()) == Err::<RunModeModel, Seq<char>>(
            "rag query requires question text"@,
        ),
{
    reveal_strlit(" ");
    assert(" "@ =~= seq![' ']);
    let none = QueryModel { parts: Seq::empty(), top_k: 5, repeat: 1 };
    plain_words_are_kept(args, none);
    assert(none.parts + args =~= args);
    assert(query_parts(Seq::empty(), none) == Ok::<QueryModel, Seq<char>>(none));
}

proof fn plain_words_are_kept(args: Seq<Seq<char>>, before: QueryModel)
    requires
        forall|k: int| 0 <= k < args.len() ==> !sets_number(#[trigger] args[k]),
    ensures
        query_parts(args, before) == Ok::<QueryModel, Seq<char>>(
            QueryModel { parts: before.parts + args, ..before },
        ),
    decreases args.len(),
{
    if args.len() == 0 {
        assert(before.parts + args =~= before.parts);
    } else {
        assert(!sets_number(args[0]));
        let rest = args.drop_first();
        assert forall|k: int| 0 <= k < rest.len() implies !sets_number(#[trigger] rest[k]) by {
            assert(rest[k] == args[k + 1]);
        }
        let next = QueryModel { parts: before.parts.push(args[0]), ..before };
        plain_words_are_kept(rest, next);
        assert(next.parts + rest =~= before.parts + args);
    }
}

/// A benchmark plays a sound, under a label if there is one, against a reference
/// if there is one.
pub proof fn benchmarks_have_a_sound(
    audio: Seq<char>,
    label: Seq<char>,
    path: Seq<char>,
    other: Seq<char>,
)
    requires
        label != "--reference"@,
        other != "--reference"@,
    ensures
        benchmark_wish(Seq::empty()) is Err,
        benchmark_wish(seq![audio]) == Ok::<RunModeModel, Seq<char>>(
            RunModeModel::Benchmark { audio, label: "baseline"@, reference: None },
        ),
        benchmark_wish(seq![audio, label]) == Ok::<RunModeModel, Seq<char>>(
            RunModeModel::Benchmark { audio, label, reference: None },
        ),
        benchmark_wish(seq![audio, "--reference"@, path]) == Ok::<RunModeModel, Seq<char>>(
            RunModeModel::Benchmark { audio, label: "baseline"@, reference: Some(path) },
        ),
        benchmark_wish(seq![audio, label, "--reference"@, path]) == Ok::<RunModeModel, Seq<char>>(
            RunModeModel::Benchmark { audio, label, reference: Some(path) },
        ),
        benchmark_wish(seq![audio, "--reference"@]) == Err::<RunModeModel, Seq<char>>(
            "--reference requires a file path"@,
        ),
        benchmark_wish(seq![audio, label, "--reference"@]) == Err::<RunModeModel, Seq<char>>(
            "--reference requires a file path"@,
        ),
        benchmark_wish(seq![audio, label, other]) == Err::<RunModeModel, Seq<char>>(
            "unexpected benchmark argument: "@ + other,
        ),
        benchmark_wish(seq![audio, "--reference"@, path, other]) == Err::<RunModeModel, Seq<char>>(
            "unexpected benchmark argument: "@ + other,
        ),
        benchmark_wish(seq![audio, label, "--reference"@, path, other]) == Err::<
            RunModeModel,
            Seq<char>,
        >("unexpected benchmark argument: "@ + other),
{
}

/// The first argument says what is to be run, and none means the window.
pub proof fn the_first_argument_says_what_is_run(
    source: Seq<char>,
    more: Seq<Seq<char>>,
    other: Seq<char>,
)
    ensures
        wish(Seq::empty()) == Ok::<RunModeModel, Seq<char>>(RunModeModel::Overlay),
        wish(seq!["--overlay"@]) == Ok::<RunModeModel, Seq<char>>(RunModeModel::Overlay),
        wish(seq!["--terminal"@]) == Ok::<RunModeModel, Seq<char>>(RunModeModel::Terminal),
        wish(seq!["--benchmark"@] + more) == benchmark_wish(more),
        wish(seq!["rag"@] + more) == rag_wish(more),
        rag_wish(seq!["index"@, source]) == Ok::<RunModeModel, Seq<char>>(
            RunModeModel::RagIndex { source },
        ),
        rag_wish(seq!["index"@]) == Err::<RunModeModel, Seq<char>>(
            "rag index requires a Markdown file or directory"@,
        ),
        rag_wish(seq!["index"@, source, other]) == Err::<RunModeModel, Seq<char>>(
            "unexpected rag index argument: "@ + other,
        ),
        rag_wish(seq!["query"@] + more) == query_wish(more),
        rag_wish(Seq::empty()) == Err::<RunModeModel, Seq<char>>(
            "rag requires an index or query command"@,
        ),
        other != "index"@ && other != "query"@ ==> rag_wish(seq![other] + more) == Err::<
            RunModeModel,
            Seq<char>,
        >("unknown rag command `"@ + other + "`; expected index or query"@),
        other != "--overlay"@ && other != "--terminal"@ && other != "--benchmark"@ && other
            != "rag"@ ==> wish(seq![other] + more) == Err::<RunModeModel, Seq<char>>(
            "unknown argument `"@ + other
                + "`; expected --overlay, --terminal, --benchmark, or rag"@,
        ),
        more.len() > 0 ==> wish(seq!["--overlay"@] + more) is Err && wish(
            seq!["--terminal"@] + more,
        ) is Err,
{
    reveal_strlit("--overlay");
    reveal_strlit("--terminal");
    reveal_strlit("--benchmark");
    reveal_strlit("rag");
    reveal_strlit("index");
    reveal_strlit("query");
    assert("--overlay"@[2] == 'o' && "--terminal"@[2] == 't' && "--benchmark"@[2] == 'b');
    assert("rag"@[0] == 'r' && "index"@[0] == 'i' && "query"@[0] == 'q');
    assert("--overlay"@[0] == '-' && "--terminal"@[0] == '-' && "--benchmark"@[0] == '-');
    let a = seq!["--benchmark"@] + more;
    let b = seq!["rag"@] + more;
    let c = seq!["query"@] + more;
    assert(a[0] == "--benchmark"@ && b[0] == "rag"@ && c[0] == "query"@);
    assert(a.drop_first() =~= more);
    assert(b.drop_first() =~= more);
    assert(c.drop_first() =~= more);
    assert((seq![other] + more)[0] == other);
    assert((seq!["--overlay"@] + more)[0] == "--overlay"@);
    assert((seq!["--terminal"@] + more)[0] == "--terminal"@);
}

} // verus!
