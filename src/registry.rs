//! The languages that can be run, each with its strategy and file extension.

use vstd::prelude::*;
use crate::strategy::{lemma_texts_push, texts, LanguageExecution, StrategyView};

verus! {

/// A registered language: how its code is run, and the extension its source
/// files carry.
pub struct Registration {
    pub execution: LanguageExecution,
    pub extension: String,
}

/// The registry: language tag to strategy and file extension. Tags match
/// exactly, case included.
pub open spec fn registered(tag: Seq<char>) -> Option<(StrategyView, Seq<char>)> {
    if tag == "cpp"@ {
        Some((StrategyView::Compile(seq!["gcc"@]), "c"@))
    } else if tag == "python"@ {
        Some((StrategyView::Interpret(seq!["python3"@]), "py"@))
    } else if tag == "javascript"@ {
        Some((StrategyView::Interpret(seq!["node"@]), "js"@))
    } else if tag == "rust"@ {
        Some((StrategyView::Compile(seq!["rustc"@]), "rs"@))
    } else if tag == "go"@ {
        Some((StrategyView::Interpret(seq!["go"@, "run"@]), "go"@))
    } else if tag == "haskell"@ {
        Some((StrategyView::Compile(seq!["ghc"@]), "hs"@))
    } else {
        None
    }
}

/// Every registered strategy names the program it starts.
pub proof fn lemma_registered_wf(tag: Seq<char>)
    requires
        registered(tag) is Some,
    ensures
        registered(tag)->Some_0.0.wf(),
{
}

/// The command made of `program` followed by `flag`, if any.
fn command_of(program: &str, flag: Option<&str>) -> (r: Vec<String>)
    ensures
        texts(r@) == (match flag {
            Some(f) => seq![program@, f@],
            None => seq![program@],
        }),
{
    let mut r: Vec<String> = Vec::new();
    r.push(String::from_str(program));
    proof {
        lemma_texts_push(Seq::empty(), r@.last());
        assert(Seq::<String>::empty().push(r@.last()) =~= r@);
    }
    match flag {
        Some(f) => {
            let ghost prev = r@;
            r.push(String::from_str(f));
            proof {
                lemma_texts_push(prev, r@.last());
            }
        },
        None => {},
    }
    assert(texts(r@) =~~= (match flag {
        Some(f) => seq![program@, f@],
        None => seq![program@],
    }));
    r
}

fn entry(compile: bool, command: Vec<String>, extension: &str) -> (r: Registration)
    ensures
        r.execution@ == (if compile {
            StrategyView::Compile(texts(command@))
        } else {
            StrategyView::Interpret(texts(command@))
        }),
        r.extension@ == extension@,
{
    let execution = if compile {
        LanguageExecution::Compile { compile_command: command }
    } else {
        LanguageExecution::Interpret { command }
    };
    Registration { execution, extension: String::from_str(extension) }
}

fn same_text(a: &str, b: &str) -> (r: bool)
    ensures
        r == (a@ == b@),
{
    String::from_str(a) == String::from_str(b)
}

/// Looks up the registration of `tag`.
pub fn lookup(tag: &str) -> (r: Option<Registration>)
    ensures
        r is Some <==> registered(tag@) is Some,
        r is Some ==> (r->Some_0.execution@, r->Some_0.extension@) == registered(tag@)->Some_0,
{
    let r = if same_text(tag, "cpp") {
        Some(entry(true, command_of("gcc", None), "c"))
    } else if same_text(tag, "python") {
        Some(entry(false, command_of("python3", None), "py"))
    } else if same_text(tag, "javascript") {
        Some(entry(false, command_of("node", None), "js"))
    } else if same_text(tag, "rust") {
        Some(entry(true, command_of("rustc", None), "rs"))
    } else if same_text(tag, "go") {
        Some(entry(false, command_of("go", Some("run")), "go"))
    } else if same_text(tag, "haskell") {
        Some(entry(true, command_of("ghc", None), "hs"))
    } else {
        None
    };
    r
}

} // verus!
