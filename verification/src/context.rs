use vstd::prelude::*;
use crate::config::{Config, ConfigView};
use crate::naming::{generate_zip_name, zip_name};
use crate::text::{decimal, decimal_text};

verus! {

/// The abstract view of a [`BackupContext`].
pub struct BackupContextView {
    pub config: ConfigView,
    pub log_path: Seq<char>,
    pub timestamp: Seq<char>,
}

/// Everything one backup run needs: the settings, where the log goes (as
/// displayed text) and the timestamp that names the new archive.
#[derive(Clone, Debug)]
pub struct BackupContext {
    pub config: Config,
    pub log_path: String,
    pub timestamp: String,
}

impl View for BackupContext {
    type V = BackupContextView;

    open spec fn view(&self) -> BackupContextView {
        BackupContextView { config: self.config@, log_path: self.log_path@, timestamp: self.timestamp@ }
    }
}

/// The lines that describe the sources: one line for a single folder,
/// otherwise a count followed by one indented line per folder.
pub open spec fn source_lines(sources: Seq<Seq<char>>) -> Seq<Seq<char>> {
    if sources.len() == 1 {
        seq!["Source: "@ + sources[0]]
    } else {
        seq!["Sources ("@ + decimal_text(sources.len()) + " folders):"@] + sources.map_values(
            |s: Seq<char>| "  - "@ + s,
        )
    }
}

/// The layout of the banner, line by line: a title, the log file, the
/// source line (one folder) or a count line followed by one line per folder,
/// then the destination, the archive file name, the number of backups kept
/// written out in full, and an empty line.
pub proof fn lemma_header_layout(ctx: BackupContextView, lines: Seq<Seq<char>>, k: int)
    requires
        lines == header_lines(ctx),
        k == (if ctx.config.sources().len() == 1 {
            1
        } else {
            1 + ctx.config.sources().len()
        }),
    ensures
        ({
            let sources = ctx.config.sources();
            let kept = ctx.config.max_backups;
            &&& lines.len() == 8 + k
            &&& lines[0] == "Auto-Backup starting..."@
            &&& lines[1].len() == 0
            &&& lines[2] == "Log file: "@ + ctx.log_path
            &&& lines[3].len() == 0
            &&& sources.len() == 1 ==> lines[4] == "Source: "@ + sources[0]
            &&& sources.len() != 1 ==> lines[4] == "Sources ("@ + decimal_text(sources.len()) + " folders):"@
            &&& sources.len() != 1 ==> forall|i: int|
                0 <= i < sources.len() ==> #[trigger] lines[5 + i] == "  - "@ + sources[i]
            &&& lines[4 + k] == "Destination: "@ + ctx.config.destination_path
            &&& lines[5 + k] == "Backup filename: "@ + ctx.config.base_name + "_"@ + ctx.timestamp + ".zip"@
            &&& lines[6 + k] == "Keeping the last "@ + decimal_text(kept) + " backups"@
            &&& lines[7 + k].len() == 0
        }),
{
    let sources = ctx.config.sources();
    if sources.len() != 1 {
        assert forall|i: int| 0 <= i < sources.len() implies #[trigger] lines[5 + i] == "  - "@
            + sources[i] by {
            let items = sources.map_values(|s: Seq<char>| "  - "@ + s);
            assert(lines[5 + i] == items[i]);
        }
    }
}

/// The banner printed at the start of a run.
pub open spec fn header_lines(ctx: BackupContextView) -> Seq<Seq<char>> {
    seq!["Auto-Backup starting..."@, Seq::<char>::empty(), "Log file: "@ + ctx.log_path, Seq::<char>::empty()] + source_lines(
        ctx.config.sources(),
    ) + seq![
        "Destination: "@ + ctx.config.destination_path,
        "Backup filename: "@ + zip_name(ctx.config.base_name, ctx.timestamp),
        "Keeping the last "@ + decimal_text(ctx.config.max_backups) + " backups"@,
        Seq::<char>::empty(),
    ]
}

/// Appends `line` to `lines`.
pub(crate) fn push_line(lines: &mut Vec<String>, line: String)
    ensures
        final(lines).deep_view() == old(lines).deep_view().push(line@),
{
    lines.push(line);
    assert(final(lines).deep_view() =~= old(lines).deep_view().push(line@));
}

/// The deep view of a vector of strings is the views of its strings.
pub(crate) proof fn lemma_string_vec_view(v: &Vec<String>)
    ensures
        v.deep_view().len() == v@.len(),
        forall|i: int| #![trigger v@[i]] 0 <= i < v@.len() ==> v.deep_view()[i] == v@[i]@,
{
}

fn joined(a: &str, b: &str) -> (r: String)
    ensures
        r@ == a@ + b@,
{
    let mut r = String::from_str(a);
    r.append(b);
    r
}

/// The banner printed at the start of a run: log file, sources,
/// destination, archive name and how many backups are kept.
pub fn format_header(ctx: &BackupContext) -> (lines: Vec<String>)
    ensures
        lines.deep_view() == header_lines(ctx@),
        lines.deep_view().len() >= 9,
        lines.deep_view()[lines.deep_view().len() - 4] == "Destination: "@
            + ctx@.config.destination_path,
        lines.deep_view()[lines.deep_view().len() - 3] == "Backup filename: "@
            + ctx@.config.base_name + "_"@ + ctx@.timestamp + ".zip"@,
        lines.deep_view()[lines.deep_view().len() - 2] == "Keeping the last "@ + decimal_text(
            ctx@.config.max_backups,
        ) + " backups"@,
{
    let zip_name = generate_zip_name(ctx.config.base_name.as_str(), ctx.timestamp.as_str());
    let sources = ctx.config.get_source_folders();
    let mut lines: Vec<String> = Vec::new();
    push_line(&mut lines, String::from_str("Auto-Backup starting..."));
    push_line(&mut lines, String::new());
    push_line(&mut lines, joined("Log file: ", ctx.log_path.as_str()));
    push_line(&mut lines, String::new());
    let ghost start = lines.deep_view();
    assert(start =~= seq!["Auto-Backup starting..."@, Seq::<char>::empty(), "Log file: "@ + ctx@.log_path, Seq::<char>::empty()]);
    if sources.len() == 1 {
        push_line(&mut lines, joined("Source: ", sources[0].as_str()));
        assert(lines.deep_view() =~= start + source_lines(ctx@.config.sources()));
    } else {
        let mut count = joined("Sources (", decimal(sources.len()).as_str());
        count.append(" folders):");
        push_line(&mut lines, count);
        let ghost items = sources.deep_view().map_values(|s: Seq<char>| "  - "@ + s);
        let ghost before = lines.deep_view();
        let mut i: usize = 0;
        while i < sources.len()
            invariant
                i <= sources@.len(),
                items == sources.deep_view().map_values(|s: Seq<char>| "  - "@ + s),
                lines.deep_view() == before + items.take(i as int),
            decreases sources.len() - i,
        {
            push_line(&mut lines, joined("  - ", sources[i].as_str()));
            assert(items.take(i as int + 1) =~= items.take(i as int).push(items[i as int]));
            assert(lines.deep_view() =~= before + items.take(i as int + 1));
            i = i + 1;
        }
        assert(items.take(sources.len() as int) =~= items);
        assert(lines.deep_view() =~= start + source_lines(ctx@.config.sources()));
    }
    push_line(&mut lines, joined("Destination: ", ctx.config.destination_path.as_str()));
    push_line(&mut lines, joined("Backup filename: ", zip_name.as_str()));
    let mut keeping = joined("Keeping the last ", decimal(ctx.config.max_backups).as_str());
    keeping.append(" backups");
    push_line(&mut lines, keeping);
    push_line(&mut lines, String::new());
    assert(lines.deep_view() =~= header_lines(ctx@));
    proof {
        let sources = ctx@.config.sources();
        let k: int = if sources.len() == 1 {
            1
        } else {
            1 + sources.len() as int
        };
        lemma_header_layout(ctx@, lines.deep_view(), k);
    }
    lines
}

/// The abstract view of a result whose error is a message.
pub open spec fn outcome(r: Result<(), String>) -> Result<(), Seq<char>> {
    match r {
        Ok(()) => Ok(()),
        Err(e) => Err(e@),
    }
}

/// The message for a path that does not exist.
pub open spec fn not_found_text(path_type: Seq<char>, path: Seq<char>) -> Seq<char> {
    path_type + " not found at "@ + path
}

/// The position of the first `false` in `flags`, or its length when there is
/// none.
pub open spec fn first_false(flags: Seq<bool>) -> nat
    decreases flags.len(),
{
    if flags.len() == 0 {
        0
    } else if !flags[0] {
        0
    } else {
        1 + first_false(flags.drop_first())
    }
}

/// `first_false` finds the first `false`: every flag before it is `true`,
/// and it is the position of a `false` unless all flags are `true`.
pub proof fn lemma_first_false_meaning(flags: Seq<bool>)
    ensures
        first_false(flags) <= flags.len(),
        forall|j: int| 0 <= j < first_false(flags) ==> flags[j],
        first_false(flags) < flags.len() ==> !flags[first_false(flags) as int],
        first_false(flags) == flags.len() <==> forall|j: int| 0 <= j < flags.len() ==> flags[j],
    decreases flags.len(),
{
    if flags.len() > 0 {
        lemma_first_false_meaning(flags.drop_first());
        assert forall|j: int| 0 <= j < first_false(flags) implies flags[j] by {
            if j > 0 {
                assert(flags[j] == flags.drop_first()[j - 1]);
            }
        }
        if first_false(flags) == flags.len() {
            assert forall|j: int| 0 <= j < flags.len() implies flags[j] by {}
        }
        if forall|j: int| 0 <= j < flags.len() ==> flags[j] {
            assert(flags[0]);
            assert forall|j: int| 0 <= j < flags.drop_first().len() implies flags.drop_first()[j] by {
                assert(flags.drop_first()[j] == flags[j + 1]);
            }
        }
    }
}

proof fn lemma_first_false(flags: Seq<bool>, i: int)
    requires
        0 <= i <= flags.len(),
        forall|j: int| 0 <= j < i ==> flags[j],
        i < flags.len() ==> !flags[i],
    ensures
        first_false(flags) == i,
    decreases i,
{
    if i > 0 {
        lemma_first_false(flags.drop_first(), i - 1);
    }
}

/// What checking the paths of a run yields, given whether each source
/// folder and the destination exist: no sources is an error, then the first
/// missing source, then a missing destination.
pub open spec fn backup_paths_outcome(
    ctx: BackupContextView,
    source_exists: Seq<bool>,
    destination_exists: bool,
) -> Result<(), Seq<char>> {
    let sources = ctx.config.sources();
    if sources.len() == 0 {
        Err("No source folders configured"@)
    } else if first_false(source_exists) < sources.len() {
        Err(not_found_text("Source folder"@, sources[first_false(source_exists) as int]))
    } else if !destination_exists {
        Err(not_found_text("Destination folder"@, ctx.config.destination_path))
    } else {
        Ok(())
    }
}

/// Checks one path, given whether it exists: an error naming the kind of
/// path and the path when it does not.
pub fn validate_path(exists: bool, path: &str, path_type: &str) -> (r: Result<(), String>)
    ensures
        outcome(r) == (if exists {
            Ok(())
        } else {
            Err(not_found_text(path_type@, path@))
        }),
{
    if exists {
        Ok(())
    } else {
        let mut message = joined(path_type, " not found at ");
        message.append(path);
        Err(message)
    }
}

/// Checks the paths of a run before anything is written: at least one
/// source folder is configured, every source exists (`source_exists[i]`
/// tells whether the `i`-th of the configured sources does), and the
/// destination exists. The first failed check gives the error.
pub fn validate_backup_paths(
    ctx: &BackupContext,
    source_exists: &Vec<bool>,
    destination_exists: bool,
) -> (r: Result<(), String>)
    requires
        source_exists@.len() == ctx@.config.sources().len(),
    ensures
        outcome(r) == backup_paths_outcome(ctx@, source_exists@, destination_exists),
        r is Ok <==> (ctx@.config.sources().len() > 0 && (forall|i: int|
            0 <= i < source_exists@.len() ==> source_exists@[i]) && destination_exists),
        ctx@.config.sources().len() == 0 ==> outcome(r) == Err::<(), Seq<char>>(
            "No source folders configured"@,
        ),
        forall|i: int|
            0 <= i < source_exists@.len() && !source_exists@[i] && (forall|j: int|
                0 <= j < i ==> source_exists@[j]) ==> outcome(r) == Err::<(), Seq<char>>(
                "Source folder"@ + " not found at "@ + #[trigger] ctx@.config.sources()[i],
            ),
        ctx@.config.sources().len() > 0 && (forall|i: int|
            0 <= i < source_exists@.len() ==> source_exists@[i]) && !destination_exists
            ==> outcome(r) == Err::<(), Seq<char>>(
            "Destination folder"@ + " not found at "@ + ctx@.config.destination_path,
        ),
{
    proof {
        lemma_first_false_meaning(source_exists@);
        assert forall|i: int|
            0 <= i < source_exists@.len() && !source_exists@[i] && (forall|j: int|
                0 <= j < i ==> source_exists@[j]) implies first_false(source_exists@) == i by {
            lemma_first_false(source_exists@, i);
        }
    }
    let sources = ctx.config.get_source_folders();
    if sources.len() == 0 {
        return Err(String::from_str("No source folders configured"));
    }
    let mut i: usize = 0;
    while i < sources.len()
        invariant
            i <= sources@.len(),
            source_exists@.len() == sources@.len(),
            sources.deep_view() == ctx@.config.sources(),
            forall|j: int| 0 <= j < i ==> source_exists@[j],
        decreases sources.len() - i,
    {
        let checked = validate_path(source_exists[i], sources[i].as_str(), "Source folder");
        if checked.is_err() {
            proof {
                lemma_first_false(source_exists@, i as int);
            }
            assert(sources.deep_view()[i as int] == sources@[i as int]@);
            return checked;
        }
        i = i + 1;
    }
    proof {
        lemma_first_false(source_exists@, i as int);
    }
    validate_path(destination_exists, ctx.config.destination_path.as_str(), "Destination folder")
}

} // verus!
