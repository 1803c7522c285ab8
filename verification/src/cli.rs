//! The command line: running the server, and managing the flags.
use vstd::prelude::*;
use vstd::string::StringSliceAdditionalSpecFns;
use vstd::utf8::{decode_utf8, encode_utf8, is_char_boundary};
use crate::database::{
    added_flag, clear_flags, clear_solves, create_flag, delete_flag, fits_i32, flag_index, flag_of_row, is_listing,
    listed_flags, points_outcome, Database, DbError, Flag, FlagRow, FlagView,
};
use crate::text::{int_to_decimal, push_i64, push_str};

verus! {

/// The command line.
pub struct Args {
    pub command: Commands,
}

pub enum Commands {
    /// Run the server; `local` runs the interface in this terminal instead,
    /// `leaderboard` opens it on the leaderboard.
    Run { local: bool, leaderboard: bool },
    /// Add, delete, list, load or write flags (loading renumbers the flags
    /// and so removes the solves: do it before the CTF starts).
    Flags { command: FlagCommands },
}

pub enum FlagCommands {
    /// List the flags.
    List,
    /// Delete a flag.
    Delete { id: i32 },
    /// Replace the flags with those of a flag file (standard input when no
    /// path); the solves of the old flags are removed.
    Load { path: Option<String> },
    /// Write the flags as a flag file (standard output when no path).
    Write { path: Option<String> },
    /// Add a flag.
    Add { name: String, description: String, points: i32, flag: String },
}

impl Args {
    /// Whether the interface opens on the leaderboard.
    pub fn leaderboard(&self) -> (r: bool)
        ensures
            r == (self.command matches Commands::Run { leaderboard, .. } && leaderboard),
    {
        match &self.command {
            Commands::Run { leaderboard, .. } => *leaderboard,
            Commands::Flags { .. } => false,
        }
    }
}

/// One flag of a flag file.
pub struct FlagEntry {
    pub name: String,
    pub description: String,
    pub points: i32,
    pub flag: String,
}

/// What a flag command leaves to print or write.
pub enum CommandOutput {
    Nothing,
    /// Lines to print.
    Lines(Vec<String>),
    /// The flags to write as a flag file.
    Export(Vec<FlagEntry>),
}

/// How many bytes of a description the listing shows: the first ten.
pub open spec fn cut_len(desc: Seq<char>) -> int {
    let n = (encode_utf8(desc).len() as usize) as int;
    if n < 10 { n } else { 10 }
}

/// The description can be cut after its first ten bytes (or is shorter).
pub open spec fn cuttable(desc: Seq<char>) -> bool {
    is_char_boundary(encode_utf8(desc), cut_len(desc))
}

/// The start of a description as the listing shows it.
pub open spec fn cut_description(desc: Seq<char>) -> Seq<char> {
    decode_utf8(encode_utf8(desc).subrange(0, cut_len(desc)))
}

/// A line of the flag listing: `id - name - description start - points - solution`.
pub open spec fn list_line_text(f: FlagView) -> Seq<char> {
    int_to_decimal(f.id as int) + " - "@ + f.name + " - "@ + cut_description(f.description) + " - "@
        + int_to_decimal(f.points as int) + " - "@ + f.flag
}

/// Whether the flag's description can be cut where the listing cuts it.
pub fn can_list(f: &Flag) -> (r: bool)
    ensures
        r == cuttable(f@.description),
{
    let d = f.description();
    let n = d.len();
    let k = if n < 10 { n } else { 10 };
    d.is_char_boundary(k)
}

/// The line listing flag `f`.
pub fn list_line(f: &Flag) -> (r: String)
    requires
        cuttable(f@.description),
    ensures
        r@ == list_line_text(f@),
{
    let d = f.description();
    let n = d.len();
    let k = if n < 10 { n } else { 10 };
    let (head, _) = d.split_at(k);
    proof {
        vstd::utf8::encode_utf8_decode_utf8(head@);
        assert(encode_utf8(head@) == head.spec_bytes());
    }
    let mut s = String::new();
    push_i64(&mut s, f.id() as i64);
    push_str(&mut s, " - ");
    push_str(&mut s, f.name());
    push_str(&mut s, " - ");
    push_str(&mut s, head);
    push_str(&mut s, " - ");
    push_i64(&mut s, f.points() as i64);
    push_str(&mut s, " - ");
    push_str(&mut s, f.flag());
    assert(s@ =~= list_line_text(f@));
    s
}

/// The flags can all be listed.
pub open spec fn listable(db: Database) -> bool {
    forall|i: int| 0 <= i < listed_flags(db.flags@).len() ==> cuttable(#[trigger] listed_flags(db.flags@)[i].description@)
}

/// The contents of a flag: name, description, points and solution.
pub type FlagContents = (Seq<char>, Seq<char>, i32, Seq<char>);

pub open spec fn row_contents(r: FlagRow) -> FlagContents {
    (r.name@, r.description@, r.points, r.flag@)
}

pub open spec fn entry_contents(e: FlagEntry) -> FlagContents {
    (e.name@, e.description@, e.points, e.flag@)
}

/// The flag file written for a flags table: the listed flags' contents, in order.
pub open spec fn written_entries(rows: Seq<FlagRow>) -> Seq<FlagContents> {
    listed_flags(rows).map_values(|r: FlagRow| row_contents(r))
}

/// `rows` is the flags table loaded from a file with these entries: one row
/// per entry, in order, with ids counting from 1.
pub open spec fn loaded_table(rows: Seq<FlagRow>, entries: Seq<FlagContents>) -> bool {
    &&& rows.len() == entries.len()
    &&& forall|i: int| 0 <= i < rows.len() ==> (#[trigger] rows[i]).id == i + 1 && row_contents(rows[i]) == entries[i]
}

proof fn lemma_listed_all(rows: Seq<FlagRow>)
    requires
        forall|i: int| 0 <= i < rows.len() ==> fits_i32(#[trigger] rows[i].id as int),
    ensures
        listed_flags(rows) == rows,
    decreases rows.len(),
{
    if rows.len() > 0 {
        let rest = rows.drop_last();
        assert forall|i: int| 0 <= i < rest.len() implies fits_i32(#[trigger] rest[i].id as int) by {
            assert(rest[i] == rows[i]);
        }
        lemma_listed_all(rest);
        assert(rows.last() == rows[rows.len() - 1]);
        assert(rest.push(rows.last()) =~= rows);
    }
}

/// Writing the flags to a file and loading that file gives back the same
/// flags (renumbered from 1), as long as there are no more of them than
/// 32-bit ids can number.
pub proof fn law_write_then_load(before: Seq<FlagRow>, after: Seq<FlagRow>)
    requires
        loaded_table(after, written_entries(before)),
        after.len() <= i32::MAX,
    ensures
        written_entries(after) == written_entries(before),
{
    assert forall|i: int| 0 <= i < after.len() implies fits_i32(#[trigger] after[i].id as int) by {
        assert(after[i].id == i + 1);
    }
    lemma_listed_all(after);
    let w = written_entries(before);
    assert forall|i: int| 0 <= i < after.len() implies #[trigger] written_entries(after)[i] == w[i] by {
        assert(after[i].id == i + 1 && row_contents(after[i]) == w[i]);
    }
    assert(written_entries(after) =~= w);
}

impl FlagCommands {
    /// Runs a flag command on the database. `loaded` is the content of the
    /// flag file for `Load`.
    pub fn run(&self, db: &mut Database, loaded: Option<Vec<FlagEntry>>) -> (r: CommandOutput)
        requires
            old(db).wf(),
            self is Add ==> old(db).flag_seq < i64::MAX,
            self is Load ==> (loaded matches Some(l) && l@.len() < i64::MAX),
            self is List ==> listable(*old(db)),
        ensures
            final(db).wf(),
            final(db).same_users(*old(db)),
            !(self is Load) ==> final(db).same_cleared(*old(db)),
            match self {
                FlagCommands::List => final(db).unchanged(*old(db)) && (r matches CommandOutput::Lines(lines)
                    && lines@.len() == listed_flags(old(db).flags@).len()
                    && forall|i: int| 0 <= i < lines@.len() ==> (#[trigger] lines@[i])@
                        == list_line_text(flag_of_row(listed_flags(old(db).flags@)[i], false))),
                FlagCommands::Delete { id } => r is Nothing && final(db).flag_seq == old(db).flag_seq
                    && match flag_index(old(db).flags@, *id as int) {
                        Some(k) => final(db).flags@ == old(db).flags@.remove(k),
                        None => final(db).flags@ == old(db).flags@,
                    },
                FlagCommands::Add { name, description, points, flag } => r is Nothing
                    && added_flag(*old(db), *final(db), name@, description@, *points, flag@),
                FlagCommands::Write { .. } => final(db).unchanged(*old(db)) && (r matches CommandOutput::Export(e)
                    && e@.map_values(|x: FlagEntry| entry_contents(x)) == written_entries(old(db).flags@)
                    && e@.len() == listed_flags(old(db).flags@).len()
                    && forall|i: int| 0 <= i < e@.len() ==> {
                        let row = listed_flags(old(db).flags@)[i];
                        &&& (#[trigger] e@[i]).name@ == row.name@
                        &&& e@[i].description@ == row.description@
                        &&& e@[i].points == row.points
                        &&& e@[i].flag@ == row.flag@
                    }),
                FlagCommands::Load { .. } => r is Nothing
                    && final(db).cleared@.len() == 0 && final(db).cleared_seq == old(db).cleared_seq
                    && (forall|uid: int| points_outcome(*final(db), uid) == Ok::<i32, DbError>(0))
                    && (loaded matches Some(l) && {
                    &&& loaded_table(final(db).flags@, l@.map_values(|x: FlagEntry| entry_contents(x)))
                    &&& final(db).flags@.len() == l@.len()
                    &&& final(db).flag_seq == l@.len()
                    &&& forall|i: int| 0 <= i < l@.len() ==> {
                        let row = #[trigger] final(db).flags@[i];
                        &&& row.id == i + 1
                        &&& row.name@ == l@[i].name@
                        &&& row.description@ == l@[i].description@
                        &&& row.points == l@[i].points
                        &&& row.flag@ == l@[i].flag@
                    }
                }),
            },
    {
        match self {
            FlagCommands::Delete { id } => {
                delete_flag(db, *id);
                CommandOutput::Nothing
            },
            FlagCommands::List => {
                let flags = Flag::get_all(db);
                let mut lines: Vec<String> = Vec::new();
                let mut i: usize = 0;
                while i < flags.len()
                    invariant
                        i <= flags@.len(),
                        is_listing(flags@, db.flags@, |fid: int| false),
                        listable(*db),
                        lines@.len() == i,
                        forall|k: int| 0 <= k < i ==> (#[trigger] lines@[k])@
                            == list_line_text(flag_of_row(listed_flags(db.flags@)[k], false)),
                    decreases flags.len() - i,
                {
                    assert(flags@[i as int]@ == flag_of_row(listed_flags(db.flags@)[i as int], false));
                    let line = list_line(&flags[i]);
                    lines.push(line);
                    i = i + 1;
                }
                CommandOutput::Lines(lines)
            },
            FlagCommands::Add { name, description, points, flag } => {
                create_flag(db, name.as_str(), description.as_str(), *points, flag.as_str());
                CommandOutput::Nothing
            },
            FlagCommands::Write { .. } => {
                let flags = Flag::get_all(db);
                let mut out: Vec<FlagEntry> = Vec::new();
                let mut i: usize = 0;
                while i < flags.len()
                    invariant
                        i <= flags@.len(),
                        is_listing(flags@, db.flags@, |fid: int| false),
                        out@.len() == i,
                        forall|k: int| 0 <= k < i ==> {
                            let row = listed_flags(db.flags@)[k];
                            &&& (#[trigger] out@[k]).name@ == row.name@
                            &&& out@[k].description@ == row.description@
                            &&& out@[k].points == row.points
                            &&& out@[k].flag@ == row.flag@
                        },
                    decreases flags.len() - i,
                {
                    assert(flags@[i as int]@ == flag_of_row(listed_flags(db.flags@)[i as int], false));
                    let f = &flags[i];
                    out.push(FlagEntry {
                        name: f.name().to_owned(),
                        description: f.description().to_owned(),
                        points: f.points(),
                        flag: f.flag().to_owned(),
                    });
                    i = i + 1;
                }
                assert(out@.map_values(|x: FlagEntry| entry_contents(x)) =~= written_entries(db.flags@));
                CommandOutput::Export(out)
            },
            FlagCommands::Load { .. } => {
                let entries = match loaded {
                    Some(l) => l,
                    None => Vec::new(),
                };
                clear_flags(db);
                clear_solves(db);
                let ghost start = *db;
                let mut i: usize = 0;
                while i < entries.len()
                    invariant
                        i <= entries@.len(),
                        entries@.len() < i64::MAX,
                        loaded == Some(entries),
                        db.wf(),
                        db.same_users(start),
                        db.same_cleared(start),
                        start.cleared@.len() == 0,
                        start.cleared_seq == old(db).cleared_seq,
                        db.flags@.len() == i,
                        db.flag_seq == i,
                        forall|k: int| 0 <= k < i ==> {
                            let row = #[trigger] db.flags@[k];
                            &&& row.id == k + 1
                            &&& row.name@ == entries@[k].name@
                            &&& row.description@ == entries@[k].description@
                            &&& row.points == entries@[k].points
                            &&& row.flag@ == entries@[k].flag@
                        },
                    decreases entries.len() - i,
                {
                    let e = &entries[i];
                    let ghost before = *db;
                    create_flag(db, e.name.as_str(), e.description.as_str(), e.points, e.flag.as_str());
                    proof {
                        assert forall|k: int| 0 <= k < i + 1 implies {
                            let row = #[trigger] db.flags@[k];
                            &&& row.id == k + 1
                            &&& row.name@ == entries@[k].name@
                            &&& row.description@ == entries@[k].description@
                            &&& row.points == entries@[k].points
                            &&& row.flag@ == entries@[k].flag@
                        } by {
                            if k < i {
                                assert(db.flags@.take(i as int)[k] == before.flags@[k]);
                            }
                        }
                    }
                    i = i + 1;
                }
                proof {
                    let ev = entries@.map_values(|x: FlagEntry| entry_contents(x));
                    assert forall|k: int| 0 <= k < db.flags@.len() implies (#[trigger] db.flags@[k]).id == k + 1
                        && row_contents(db.flags@[k]) == ev[k] by {
                    }
                }
                CommandOutput::Nothing
            },
        }
    }
}

} // verus!
