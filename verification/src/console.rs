//! What the sequencer's console understands: its library commands, and the
//! notes it writes into a program's text about errors met while running it.
use vstd::prelude::*;
use std::collections::VecDeque;
use crate::library::{FunctionLibrary, LibraryManager, SampleLibrary};
use crate::square::Program;
use crate::text::{
    contains, contains_exec, find, find_exec, joined, joined3, joined4, nat_digits, owned, str_eq, tail, uint_to_text, words,
    words_exec, views,
};

verus! {

/// A name for `str::to_lowercase`: the text with every character replaced
/// by its Unicode lower case.
pub uninterp spec fn lowercase(s: Seq<char>) -> Seq<char>;

/// `str::to_lowercase`.
#[verifier::external_body]
fn to_lowercase(s: &str) -> (r: String)
    ensures
        r@ == lowercase(s@),
{
    s.to_lowercase()
}

/// A console command.
pub enum ConsoleCommand {
    /// Not a command the console knows.
    Ignored,
    ShowHelp,
    ListLibraries,
    /// List the functions of one library, or of all.
    ListFunctions(Option<String>),
    /// List the samples of one library, or of all.
    ListSamples(Option<String>),
    ClearAuto,
    /// `lib clear` with anything but `auto`: show how it is used.
    ClearUsage,
}

/// A console command as the contracts see it.
pub enum Command {
    Ignored,
    ShowHelp,
    ListLibraries,
    ListFunctions(Option<Seq<char>>),
    ListSamples(Option<Seq<char>>),
    ClearAuto,
    ClearUsage,
}

pub open spec fn command_view(c: ConsoleCommand) -> Command {
    match c {
        ConsoleCommand::Ignored => Command::Ignored,
        ConsoleCommand::ShowHelp => Command::ShowHelp,
        ConsoleCommand::ListLibraries => Command::ListLibraries,
        ConsoleCommand::ListFunctions(l) => Command::ListFunctions(
            match l {
                Some(s) => Some(s@),
                None => None,
            },
        ),
        ConsoleCommand::ListSamples(l) => Command::ListSamples(
            match l {
                Some(s) => Some(s@),
                None => None,
            },
        ),
        ConsoleCommand::ClearAuto => Command::ClearAuto,
        ConsoleCommand::ClearUsage => Command::ClearUsage,
    }
}

/// The command a console line is: its first word is `lib` or `library`
/// in any case, the second says what to do, a third names a library.
pub open spec fn console_command(line: Seq<char>) -> Command {
    let parts = words(line);
    if parts.len() == 0 {
        Command::Ignored
    } else if lowercase(parts[0]) == "lib"@ || lowercase(parts[0]) == "library"@ {
        if parts.len() == 1 {
            Command::ShowHelp
        } else if parts[1] == "list"@ {
            Command::ListLibraries
        } else if parts[1] == "functions"@ {
            Command::ListFunctions(if parts.len() > 2 { Some(parts[2]) } else { None })
        } else if parts[1] == "samples"@ {
            Command::ListSamples(if parts.len() > 2 { Some(parts[2]) } else { None })
        } else if parts[1] == "clear"@ {
            if parts.len() > 2 && parts[2] == "auto"@ {
                Command::ClearAuto
            } else {
                Command::ClearUsage
            }
        } else {
            Command::ShowHelp
        }
    } else {
        Command::Ignored
    }
}

/// A `lib` (or `library`) line whose second word is `functions` or
/// `samples` asks for that listing; it names a library exactly when the
/// line has a third word, and the library it names is that word.
pub proof fn lemma_listing_names_the_third_word(line: Seq<char>)
    requires
        words(line).len() >= 2,
        lowercase(words(line)[0]) == "lib"@ || lowercase(words(line)[0]) == "library"@,
    ensures
        words(line)[1] == "functions"@ ==> (console_command(line) matches Command::ListFunctions(l) && (l is Some
            <==> words(line).len() > 2) && (l matches Some(n) ==> n == words(line)[2])),
        words(line)[1] == "samples"@ ==> (console_command(line) matches Command::ListSamples(l) && (l is Some
            <==> words(line).len() > 2) && (l matches Some(n) ==> n == words(line)[2])),
{
    reveal_strlit("list");
    reveal_strlit("functions");
    reveal_strlit("samples");
    let p = words(line);
    assert("functions"@.len() == 9 && "list"@.len() == 4 && "samples"@.len() == 7);
    if p[1] == "functions"@ {
        assert(console_command(line) == Command::ListFunctions(if p.len() > 2 { Some(p[2]) } else { None }));
    }
    if p[1] == "samples"@ {
        assert(console_command(line) == Command::ListSamples(if p.len() > 2 { Some(p[2]) } else { None }));
    }
}

/// A line is a command only when its first word is `lib` or `library` in
/// any case; that word alone asks for help, `list` lists the libraries,
/// and `clear` clears the auto library only when followed by `auto`.
pub proof fn lemma_console_commands(line: Seq<char>)
    ensures
        ({
            let p = words(line);
            let is_lib = p.len() > 0 && (lowercase(p[0]) == "lib"@ || lowercase(p[0]) == "library"@);
            &&& !is_lib <==> console_command(line) is Ignored
            &&& is_lib && p.len() == 1 ==> console_command(line) is ShowHelp
            &&& is_lib && p.len() >= 2 && p[1] == "list"@ ==> console_command(line) is ListLibraries
            &&& is_lib && p.len() >= 2 && p[1] == "clear"@ ==> (console_command(line) is ClearAuto <==> (p.len() > 2
                && p[2] == "auto"@))
            &&& is_lib && p.len() >= 2 && p[1] == "clear"@ ==> (console_command(line) is ClearAuto || console_command(
                line) is ClearUsage)
        }),
{
    reveal_strlit("list");
    reveal_strlit("functions");
    reveal_strlit("samples");
    reveal_strlit("clear");
    assert("functions"@.len() == 9 && "list"@.len() == 4 && "samples"@.len() == 7 && "clear"@.len() == 5);
    assert("clear"@[0] != "list"@[0]);
}

/// Reads a console line (see `console_command`).
pub fn parse_console_command(line: &str) -> (r: ConsoleCommand)
    ensures
        command_view(r) == console_command(line@),
{
    let parts = words_exec(line);
    let ghost ps = views(parts@);
    if parts.len() == 0 {
        return ConsoleCommand::Ignored;
    }
    assert(ps[0] == parts@[0]@);
    let first = to_lowercase(parts[0]);
    if !(str_eq(first.as_str(), "lib") || str_eq(first.as_str(), "library")) {
        return ConsoleCommand::Ignored;
    }
    if parts.len() == 1 {
        return ConsoleCommand::ShowHelp;
    }
    assert(ps[1] == parts@[1]@);
    let action = parts[1];
    if str_eq(action, "list") {
        ConsoleCommand::ListLibraries
    } else if str_eq(action, "functions") {
        if parts.len() > 2 {
            assert(ps[2] == parts@[2]@);
            ConsoleCommand::ListFunctions(Some(owned(parts[2])))
        } else {
            ConsoleCommand::ListFunctions(None)
        }
    } else if str_eq(action, "samples") {
        if parts.len() > 2 {
            assert(ps[2] == parts@[2]@);
            ConsoleCommand::ListSamples(Some(owned(parts[2])))
        } else {
            ConsoleCommand::ListSamples(None)
        }
    } else if str_eq(action, "clear") {
        if parts.len() > 2 && str_eq(parts[2], "auto") {
            ConsoleCommand::ClearAuto
        } else {
            ConsoleCommand::ClearUsage
        }
    } else {
        ConsoleCommand::ShowHelp
    }
}

/// The note an error leaves in a program's text.
pub open spec fn error_comment(message: Seq<char>) -> Seq<char> {
    "// RUNTIME ERROR: "@ + message
}

/// The name an unknown-function error gives, as the text after its
/// `Unknown function:` (the space after the colon included).
pub open spec fn unknown_function(message: Seq<char>) -> Option<Seq<char>> {
    match find(message, "Unknown function: "@) {
        Some(p) => Some(message.skip(p + 17)),
        None => None,
    }
}

/// Whether line `l` is the one an error is noted after: a `return ` line
/// naming the function an unknown-function error is about.
pub open spec fn notes_after(l: Seq<char>, message: Seq<char>) -> bool {
    &&& contains(l, "return "@)
    &&& contains(message, "Unknown function"@)
    &&& unknown_function(message) matches Some(name) && contains(l, name)
}

/// The first line from `i` on that an error is noted after.
pub open spec fn note_line(lines: Seq<Seq<char>>, message: Seq<char>, i: int) -> Option<int>
    decreases lines.len() - i,
{
    if i < 0 || i >= lines.len() {
        None
    } else if notes_after(lines[i], message) {
        Some(i)
    } else {
        note_line(lines, message, i + 1)
    }
}

/// A program's text with an error noted: after the line it is about, or on
/// top; unless some line already holds the note.
pub open spec fn with_error_note(lines: Seq<Seq<char>>, message: Seq<char>) -> Seq<Seq<char>> {
    let note = error_comment(message);
    if exists|i: int| 0 <= i < lines.len() && contains(#[trigger] lines[i], note) {
        lines
    } else {
        match note_line(lines, message, 0) {
            Some(i) => lines.insert(i + 1, note),
            None => lines.insert(0, note),
        }
    }
}

/// Notes an error in a program's text (see `with_error_note`).
pub fn add_error_comment(source_text: &mut Vec<String>, error_msg: &str)
    requires
        old(source_text)@.len() < usize::MAX,
    ensures
        views_of(final(source_text)@) == with_error_note(views_of(old(source_text)@), error_msg@),
{
    let ghost ls = views_of(source_text@);
    let comment = joined("// RUNTIME ERROR: ", error_msg);
    let mut k: usize = 0;
    while k < source_text.len()
        invariant
            ls == views_of(source_text@),
            ls == views_of(old(source_text)@),
            comment@ == error_comment(error_msg@),
            k <= source_text@.len(),
            forall|j: int| 0 <= j < k ==> !contains(#[trigger] ls[j], comment@),
        decreases source_text.len() - k,
    {
        assert(ls[k as int] == source_text@[k as int]@);
        if contains_exec(source_text[k].as_str(), comment.as_str()) {
            assert(contains(ls[k as int], error_comment(error_msg@)));
            return;
        }
        k = k + 1;
    }
    let unknown = contains_exec(error_msg, "Unknown function");
    let name: Option<&str> = match find_exec(error_msg, "Unknown function: ") {
        Some(p) => {
            proof {
                reveal_strlit("Unknown function: ");
            }
            Some(tail(error_msg, p + 17))
        },
        None => None,
    };
    let mut i: usize = 0;
    while i < source_text.len()
        invariant
            ls == views_of(source_text@),
            ls == views_of(old(source_text)@),
            source_text@.len() < usize::MAX,
            comment@ == error_comment(error_msg@),
            forall|j: int| 0 <= j < ls.len() ==> !contains(#[trigger] ls[j], error_comment(error_msg@)),
            i <= source_text@.len(),
            unknown == contains(error_msg@, "Unknown function"@),
            match name {
                Some(n) => unknown_function(error_msg@) == Some(n@),
                None => unknown_function(error_msg@) is None,
            },
            note_line(ls, error_msg@, 0) == note_line(ls, error_msg@, i as int),
        decreases source_text.len() - i,
    {
        assert(ls[i as int] == source_text@[i as int]@);
        let line = source_text[i].as_str();
        if contains_exec(line, "return ") && unknown {
            match name {
                Some(n) => {
                    if contains_exec(line, n) {
                        source_text.insert(i + 1, comment);
                        assert(views_of(source_text@) =~= ls.insert(i + 1, error_comment(error_msg@)));
                        return;
                    }
                },
                None => {},
            }
        }
        i = i + 1;
    }
    source_text.insert(0, comment);
    assert(views_of(source_text@) =~= ls.insert(0, error_comment(error_msg@)));
}

/// The texts of a list of strings.
pub open spec fn views_of(v: Seq<String>) -> Seq<Seq<char>> {
    v.map_values(|s: String| s@)
}

// ---------------------------------------------------------------------------
// What the console shows

/// The most messages the console keeps.
pub const CONSOLE_LIMIT: usize = 10;

/// The console's messages after `message` is added: the oldest is
/// forgotten beyond the limit.
pub open spec fn console_after(console: Seq<String>, message: String) -> Seq<String> {
    if console.len() + 1 > CONSOLE_LIMIT {
        console.push(message).drop_first()
    } else {
        console.push(message)
    }
}

/// Adds a message to the console (see `console_after`).
pub fn push_console_message(console: &mut VecDeque<String>, message: String)
    ensures
        final(console)@ == console_after(old(console)@, message),
{
    console.push_back(message);
    if console.len() > CONSOLE_LIMIT {
        console.pop_front();
    }
}

/// The console never holds more than `CONSOLE_LIMIT` messages, and the
/// newest is always the last one added.
pub proof fn lemma_console_bounded(console: Seq<String>, message: String)
    requires
        console.len() <= CONSOLE_LIMIT,
    ensures
        console_after(console, message).len() <= CONSOLE_LIMIT,
        console_after(console, message).last() == message,
{
}

/// The lines of the library help.
pub open spec fn help_lines() -> Seq<Seq<char>> {
    seq![
        "Library Commands:"@,
        "  lib list - List all libraries"@,
        "  lib functions [library] - List functions"@,
        "  lib samples [library] - List samples"@,
        "  lib clear auto - Clear auto-generated library"@,
    ]
}

/// The lines of the library help (see `help_lines`).
pub fn library_help_messages() -> (r: Vec<String>)
    ensures
        views_of(r@) == help_lines(),
{
    let r = vec![
        owned("Library Commands:"),
        owned("  lib list - List all libraries"),
        owned("  lib functions [library] - List functions"),
        owned("  lib samples [library] - List samples"),
        owned("  lib clear auto - Clear auto-generated library"),
    ];
    assert(views_of(r@) =~= help_lines());
    r
}

/// `  name - description (n what)`: one library in the list of libraries.
pub open spec fn library_line(name: Seq<char>, description: Seq<char>, n: nat, what: Seq<char>) -> Seq<char> {
    "  "@ + name + " - "@ + description + " ("@ + nat_digits(n) + " "@ + what + ")"@
}

/// One line per function library.
pub open spec fn function_library_lines(names: Seq<String>, libs: Seq<FunctionLibrary>) -> Seq<Seq<char>> {
    Seq::new(
        names.len(),
        |i: int| library_line(names[i]@, libs[i].description@, libs[i].functions.names@.len(), "functions"@),
    )
}

/// One line per sample library.
pub open spec fn sample_library_lines(names: Seq<String>, libs: Seq<SampleLibrary>) -> Seq<Seq<char>> {
    Seq::new(
        names.len(),
        |i: int| library_line(names[i]@, libs[i].description@, libs[i].samples.names@.len(), "samples"@),
    )
}

/// The list of libraries: the function libraries, then the sample libraries.
pub open spec fn libraries_lines(lm: LibraryManager) -> Seq<Seq<char>> {
    seq!["Function Libraries:"@] + function_library_lines(
        lm.function_libraries.names@,
        lm.function_libraries.values@,
    ) + seq!["Sample Libraries:"@] + sample_library_lines(lm.sample_libraries.names@, lm.sample_libraries.values@)
}

fn library_line_exec(name: &str, description: &str, n: usize, what: &str) -> (r: String)
    ensures
        r@ == library_line(name@, description@, n as nat, what@),
{
    let mut r = joined4("  ", name, " - ", description);
    r.append(" (");
    let digits = uint_to_text(n as u64);
    r.append(digits.as_str());
    r.append(" ");
    r.append(what);
    r.append(")");
    r
}

/// The list of libraries (see `libraries_lines`).
pub fn library_list_messages(library_manager: &LibraryManager) -> (r: Vec<String>)
    requires
        library_manager.wf(),
    ensures
        views_of(r@) == libraries_lines(*library_manager),
{
    proof {
        reveal_strlit("functions");
        reveal_strlit("samples");
    }
    let mut r: Vec<String> = Vec::new();
    r.push(owned("Function Libraries:"));
    let fl = &library_manager.function_libraries;
    let mut i: usize = 0;
    while i < fl.names.len()
        invariant
            fl == library_manager.function_libraries,
            library_manager.wf(),
            i <= fl.names@.len(),
            views_of(r@) == seq!["Function Libraries:"@] + function_library_lines(fl.names@, fl.values@).take(i as int),
        decreases fl.names.len() - i,
    {
        let lib = &fl.values[i];
        let ghost before = r@;
        let line = library_line_exec(fl.names[i].as_str(), lib.description.as_str(), lib.functions.names.len(), "functions");
        r.push(line);
        assert(views_of(r@) =~= views_of(before).push(line@));
        assert(line@ == function_library_lines(fl.names@, fl.values@)[i as int]);
        assert(function_library_lines(fl.names@, fl.values@).take(i + 1) =~= function_library_lines(
            fl.names@,
            fl.values@,
        ).take(i as int).push(function_library_lines(fl.names@, fl.values@)[i as int]));
        assert(views_of(r@) =~= seq!["Function Libraries:"@] + function_library_lines(fl.names@, fl.values@).take(i + 1));
        i = i + 1;
    }
    assert(function_library_lines(fl.names@, fl.values@).take(i as int) =~= function_library_lines(fl.names@, fl.values@));
    r.push(owned("Sample Libraries:"));
    let ghost head = seq!["Function Libraries:"@] + function_library_lines(fl.names@, fl.values@) + seq![
        "Sample Libraries:"@,
    ];
    assert(views_of(r@) =~= head);
    let sl = &library_manager.sample_libraries;
    let mut j: usize = 0;
    while j < sl.names.len()
        invariant
            sl == library_manager.sample_libraries,
            library_manager.wf(),
            j <= sl.names@.len(),
            views_of(r@) == head + sample_library_lines(sl.names@, sl.values@).take(j as int),
        decreases sl.names.len() - j,
    {
        let lib = &sl.values[j];
        let ghost before = r@;
        let line = library_line_exec(sl.names[j].as_str(), lib.description.as_str(), lib.samples.names.len(), "samples");
        r.push(line);
        assert(views_of(r@) =~= views_of(before).push(line@));
        assert(line@ == sample_library_lines(sl.names@, sl.values@)[j as int]);
        assert(sample_library_lines(sl.names@, sl.values@).take(j + 1) =~= sample_library_lines(
            sl.names@,
            sl.values@,
        ).take(j as int).push(sample_library_lines(sl.names@, sl.values@)[j as int]));
        assert(views_of(r@) =~= head + sample_library_lines(sl.names@, sl.values@).take(j + 1));
        j = j + 1;
    }
    assert(sample_library_lines(sl.names@, sl.values@).take(j as int) =~= sample_library_lines(sl.names@, sl.values@));
    r
}

/// `  prefixname - n instructions`: one function in a list of functions.
pub open spec fn function_line(prefix: Seq<char>, name: Seq<char>, p: Program) -> Seq<char> {
    "  "@ + prefix + name + " - "@ + nat_digits(p.instructions@.len()) + " instructions"@
}

/// One line per function of a library, each name after `prefix`.
pub open spec fn function_lines(prefix: Seq<char>, names: Seq<String>, programs: Seq<Program>) -> Seq<Seq<char>> {
    Seq::new(names.len(), |i: int| function_line(prefix, names[i]@, programs[i]))
}

/// The heading of the functions of library `name`.
pub open spec fn functions_heading(name: Seq<char>) -> Seq<char> {
    "Functions in '"@ + name + "' library:"@
}

/// The functions of library `name`, or that there is no such library.
pub open spec fn library_functions_lines(lm: LibraryManager, name: Seq<char>) -> Seq<Seq<char>> {
    if lm.function_libraries@.contains_key(name) {
        let lib = lm.function_libraries@[name];
        seq![functions_heading(name)] + function_lines(""@, lib.functions.names@, lib.functions.values@)
    } else {
        seq!["Function library '"@ + name + "' not found"@]
    }
}

/// The functions of every library, each library under its heading and each
/// function named `library.function`; over the first `n` libraries.
pub open spec fn all_functions_lines(lm: LibraryManager, n: int) -> Seq<Seq<char>>
    decreases n,
{
    if n <= 0 {
        Seq::empty()
    } else {
        let name = lm.function_libraries.names@[n - 1]@;
        let lib = lm.function_libraries.values@[n - 1];
        all_functions_lines(lm, n - 1) + seq![functions_heading(name)] + function_lines(
            name + "."@,
            lib.functions.names@,
            lib.functions.values@,
        )
    }
}

/// Appends one line per function of `lib`, each name after `prefix`.
fn push_function_lines(r: &mut Vec<String>, prefix: &str, lib: &FunctionLibrary)
    requires
        lib.wf(),
    ensures
        views_of(final(r)@) == views_of(old(r)@) + function_lines(prefix@, lib.functions.names@, lib.functions.values@),
{
    proof {
        reveal_strlit("  ");
    }
    let f = &lib.functions;
    let ghost lines = function_lines(prefix@, f.names@, f.values@);
    let mut k: usize = 0;
    while k < f.names.len()
        invariant
            lib.wf(),
            f == lib.functions,
            k <= f.names@.len(),
            lines == function_lines(prefix@, f.names@, f.values@),
            views_of(r@) == views_of(old(r)@) + lines.take(k as int),
        decreases f.names.len() - k,
    {
        let mut line = joined4("  ", prefix, f.names[k].as_str(), " - ");
        let digits = uint_to_text(f.values[k].instructions.len() as u64);
        line.append(digits.as_str());
        line.append(" instructions");
        let ghost before = r@;
        assert(line@ == lines[k as int]);
        r.push(line);
        assert(views_of(r@) =~= views_of(before).push(lines[k as int]));
        assert(lines.take(k + 1) =~= lines.take(k as int).push(lines[k as int]));
        assert(views_of(r@) =~= views_of(old(r)@) + lines.take(k + 1));
        k = k + 1;
    }
    assert(lines.take(k as int) =~= lines);
}

/// The functions of one library (see `library_functions_lines`).
pub fn library_function_messages(library_manager: &LibraryManager, library_name: &str) -> (r: Vec<String>)
    requires
        library_manager.wf(),
    ensures
        views_of(r@) == library_functions_lines(*library_manager, library_name@),
{
    let mut r: Vec<String> = Vec::new();
    match library_manager.function_libraries.get(library_name) {
        Some(lib) => {
            r.push(joined3("Functions in '", library_name, "' library:"));
            assert(views_of(r@) =~= seq![functions_heading(library_name@)]);
            push_function_lines(&mut r, "", lib);
        },
        None => {
            r.push(joined3("Function library '", library_name, "' not found"));
            assert(views_of(r@) =~= library_functions_lines(*library_manager, library_name@));
        },
    }
    r
}

/// The functions of every library (see `all_functions_lines`).
pub fn all_function_messages(library_manager: &LibraryManager) -> (r: Vec<String>)
    requires
        library_manager.wf(),
    ensures
        views_of(r@) == all_functions_lines(*library_manager, library_manager.function_libraries.names@.len() as int),
{
    let mut r: Vec<String> = Vec::new();
    let fl = &library_manager.function_libraries;
    let mut i: usize = 0;
    assert(views_of(r@) =~= all_functions_lines(*library_manager, 0));
    while i < fl.names.len()
        invariant
            fl == library_manager.function_libraries,
            library_manager.wf(),
            i <= fl.names@.len(),
            views_of(r@) == all_functions_lines(*library_manager, i as int),
        decreases fl.names.len() - i,
    {
        proof {
            fl.lemma_place(i as int);
        }
        let name = fl.names[i].as_str();
        let lib = &fl.values[i];
        r.push(joined3("Functions in '", name, "' library:"));
        let prefix = joined(name, ".");
        push_function_lines(&mut r, prefix.as_str(), lib);
        i = i + 1;
    }
    r
}

} // verus!
