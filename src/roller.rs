use vstd::prelude::*;

use crate::date::{
    date_of_timestamp, format_date, previous_day, unix_seconds, year_month_day_format, year_month_format, Date,
};
use crate::text::{
    chars_of, contains, contains_exec, decimal, decimal_chars, lemma_decimal_digits, lemma_decimal_injective,
    lemma_replace_injective, replace_all, replace_chars, string_of,
};

verus! {

/// Whether this library was built with gzip compression of archives.
pub const GZIP_SUPPORTED: bool = true;

/// `{}`: the placeholder that stands for an archive's index.
pub open spec fn placeholder() -> Seq<char> {
    seq!['{', '}']
}

/// `{yyyy-mm}`: stands for the year and month of the rotation's date.
pub open spec fn year_month_token() -> Seq<char> {
    seq!['{', 'y', 'y', 'y', 'y', '-', 'm', 'm', '}']
}

/// `{yyyy-mm-dd}`: stands for the full date of the rotation.
pub open spec fn year_month_day_token() -> Seq<char> {
    seq!['{', 'y', 'y', 'y', 'y', '-', 'm', 'm', '-', 'd', 'd', '}']
}

/// `gz`: the extension that asks for compressed archives.
pub open spec fn gzip_extension() -> Seq<char> {
    seq!['g', 'z']
}

/// The extension of a path: what follows the last `.` of its file name.
pub uninterp spec fn extension_of(path: Seq<char>) -> Option<Seq<char>>;

/// The path `path` with its extension set to `ext`.
pub uninterp spec fn with_extension_of(path: Seq<char>, ext: Seq<char>) -> Seq<char>;

/// The gzip stream that encodes `data` at the default level.
pub uninterp spec fn gzip_of(data: Seq<u8>) -> Seq<u8>;

/// Relies on std's `Path::extension`: the extension of the path's file name, if any.
#[verifier::external_body]
fn path_extension(path: &str) -> (r: Option<String>)
    ensures
        r is Some <==> extension_of(path@) is Some,
        r matches Some(e) ==> extension_of(path@) == Some(e@),
{
    std::path::Path::new(path).extension().map(|e| e.to_string_lossy().into_owned())
}

/// Relies on std's `Path::with_extension`: the path with its extension replaced.
#[verifier::external_body]
fn path_with_extension(path: &str, ext: &str) -> (r: String)
    requires
        forall|i: int| 0 <= i < ext@.len() ==> ext@[i] != '/' && ext@[i] != '\\',
    ensures
        r@ == with_extension_of(path@, ext@),
{
    std::path::Path::new(path).with_extension(ext).to_string_lossy().into_owned()
}

/// Relies on flate2's `GzEncoder` (default level, finished) over a `Vec<u8>`: the gzip
/// stream of `data`. Writing into a vector never fails, and the encoder fails only when
/// misused, so a stream always comes back.
#[verifier::external_body]
fn gzip_encode(data: &Vec<u8>) -> (r: Option<Vec<u8>>)
    ensures
        r is Some,
        r matches Some(v) ==> v@ == gzip_of(data@),
{
    let mut e = flate2::write::GzEncoder::new(Vec::new(), flate2::Compression::default());
    std::io::Write::write_all(&mut e, data.as_slice()).ok()?;
    e.finish().ok()
}

/// How an archive is written.
#[derive(Clone, Copy, Debug, PartialEq, Eq, Hash)]
pub enum Compression {
    /// The file is moved as it is.
    Plain,
    /// The file is gzip-compressed into the archive, and then removed.
    Gzip,
}

/// Why a roller could not be built.
#[derive(Clone, Copy, Debug, PartialEq, Eq, Hash)]
pub enum BuildError {
    /// The pattern holds no `{}`.
    MissingPlaceholder,
    /// The pattern ends in `.gz`, and gzip support is not built in.
    GzipUnsupported,
}

/// The compression that a pattern asks for: gzip where its extension is `gz`.
pub open spec fn wants_gzip(pattern: Seq<char>) -> bool {
    extension_of(pattern) == Some(gzip_extension())
}

/// The archive name pattern with its date tokens filled in.
pub open spec fn stamped(pattern: Seq<char>, year_month: Seq<char>, year_month_day: Seq<char>) -> Seq<
    char,
> {
    replace_all(
        replace_all(pattern, year_month_token(), year_month),
        year_month_day_token(),
        year_month_day,
    )
}

/// The pattern stamped with the date `d`.
pub open spec fn stamped_on(pattern: Seq<char>, d: Date) -> Seq<char> {
    stamped(pattern, d.year_month(), d.year_month_day())
}

/// The archive path for index `index` under a stamped pattern.
pub open spec fn slot_path(template: Seq<char>, index: nat) -> Seq<char> {
    replace_all(template, placeholder(), decimal(index))
}

/// The date whose tokens a rotation of type `roll_type` uses, when `today` is the
/// current date: the day before for type 1, else the day itself.
pub open spec fn reference_day(today: Date, roll_type: i16) -> Option<Date> {
    if roll_type == 1 {
        if today.is_earliest() {
            None
        } else {
            Some(today.previous())
        }
    } else {
        Some(today)
    }
}

/// The stamped pattern for a rotation of type `roll_type` on the date `today`.
pub open spec fn template_on(pattern: Seq<char>, today: Date, roll_type: i16) -> Option<Seq<char>> {
    match reference_day(today, roll_type) {
        Some(d) => Some(stamped_on(pattern, d)),
        None => None,
    }
}

/// The compression for a file-name extension, given whether gzip support is built in:
/// gzip for `gz`, an error for `gz` without that support, else none.
pub fn compression_for_extension(ext: Option<&str>, gzip_supported: bool) -> (r: Result<
    Compression,
    BuildError,
>)
    ensures
        ({
            let gz = ext matches Some(e) && e@ == gzip_extension();
            &&& gz && gzip_supported ==> r == Ok::<Compression, BuildError>(Compression::Gzip)
            &&& gz && !gzip_supported ==> r == Err::<Compression, BuildError>(
                BuildError::GzipUnsupported,
            )
            &&& !gz ==> r == Ok::<Compression, BuildError>(Compression::Plain)
        }),
{
    let gz = match ext {
        Some(e) => {
            let ec = chars_of(e);
            let g = ec.len() == 2 && ec[0] == 'g' && ec[1] == 'z';
            assert(g ==> ec@ =~= gzip_extension());
            assert(ec@ == gzip_extension() ==> g);
            g
        },
        None => false,
    };
    if gz {
        if gzip_supported {
            Ok(Compression::Gzip)
        } else {
            Err(BuildError::GzipUnsupported)
        }
    } else {
        Ok(Compression::Plain)
    }
}

/// The compression for `pattern`, by the extension of its file name, given whether
/// gzip support is built in.
pub fn select_compression(pattern: &str, gzip_supported: bool) -> (r: Result<
    Compression,
    BuildError,
>)
    ensures
        wants_gzip(pattern@) && gzip_supported ==> r == Ok::<Compression, BuildError>(
            Compression::Gzip,
        ),
        wants_gzip(pattern@) && !gzip_supported ==> r == Err::<Compression, BuildError>(
            BuildError::GzipUnsupported,
        ),
        !wants_gzip(pattern@) ==> r == Ok::<Compression, BuildError>(Compression::Plain),
{
    match path_extension(pattern) {
        Some(e) => compression_for_extension(Some(e.as_str()), gzip_supported),
        None => compression_for_extension(None, gzip_supported),
    }
}

/// `pattern` with the date tokens replaced by the texts of `d`.
pub fn stamp_pattern(pattern: &str, d: Date) -> (r: String)
    requires
        d.wf(),
    ensures
        r@ == stamped_on(pattern@, d),
{
    proof {
        reveal_strlit("%Y-%m");
        reveal_strlit("%Y-%m-%d");
    }
    let ym_fmt = "%Y-%m";
    let ymd_fmt = "%Y-%m-%d";
    assert(ym_fmt@ =~= year_month_format());
    assert(ymd_fmt@ =~= year_month_day_format());
    let ym = format_date(d, ym_fmt);
    let ymd = format_date(d, ymd_fmt);
    let ym_token: Vec<char> = vec!['{', 'y', 'y', 'y', 'y', '-', 'm', 'm', '}'];
    let ymd_token: Vec<char> = vec!['{', 'y', 'y', 'y', 'y', '-', 'm', 'm', '-', 'd', 'd', '}'];
    assert(ym_token@ =~= year_month_token());
    assert(ymd_token@ =~= year_month_day_token());
    let p = chars_of(pattern);
    let once = replace_chars(&p, &ym_token, &chars_of(ym.as_str()));
    let twice = replace_chars(&once, &ymd_token, &chars_of(ymd.as_str()));
    string_of(&twice)
}

/// The archive path for `index`: `template` with each `{}` replaced by the index in decimal.
pub fn archive_path(template: &str, index: u32) -> (r: String)
    ensures
        r@ == slot_path(template@, index as nat),
{
    let token: Vec<char> = vec!['{', '}'];
    assert(token@ =~= placeholder());
    let out = replace_chars(&chars_of(template), &token, &decimal_chars(index as u64));
    string_of(&out)
}

/// The name a file is moved to while it waits for a background rotation: the file's
/// path with its extension set to `n` in decimal.
pub fn make_temp_file_name(file: &str, n: u64) -> (r: String)
    ensures
        r@ == with_extension_of(file@, decimal(n as nat)),
{
    let ext = string_of(&decimal_chars(n));
    proof {
        lemma_decimal_digits(n as nat);
    }
    path_with_extension(file, ext.as_str())
}

impl Compression {
    /// The bytes that an archive of `data` holds: `data` itself, or its gzip stream.
    pub fn compress_bytes(&self, data: &Vec<u8>) -> (r: Option<Vec<u8>>)
        ensures
            *self == Compression::Plain ==> (r matches Some(v) && v@ == data@),
            *self == Compression::Gzip ==> (r matches Some(v) && v@ == gzip_of(data@)),
    {
        match self {
            Compression::Plain => Some(data.clone()),
            Compression::Gzip => gzip_encode(data),
        }
    }
}

/// The parameters a fixed-window roller is configured with.
#[derive(Clone, Debug, PartialEq, Eq, Hash, Default)]
pub struct FixedWindowRollerConfig {
    pub pattern: String,
    pub base: Option<u32>,
    pub count: u32,
}

/// A roller that archives each rotated file under a name made from a pattern, at the
/// lowest free index from its base on.
///
/// Existing archives are never renamed or pruned: each rotation takes the lowest
/// index, from the base upward, whose slot is free, so archives accumulate. The count
/// decides only one thing: with a count of 0 a roll deletes the file and archives
/// nothing.
#[derive(Clone, Debug)]
pub struct FixedWindowRoller {
    pattern: String,
    compression: Compression,
    base: u32,
    count: u32,
}

/// A builder for a `FixedWindowRoller`.
#[derive(Clone, Copy, Debug, PartialEq, Eq, Hash, Default)]
pub struct FixedWindowRollerBuilder {
    base: u32,
}

/// Builds a `FixedWindowRoller` from its configuration.
#[derive(Clone, Copy, Debug, PartialEq, Eq, Hash, Default)]
pub struct FixedWindowRollerDeserializer;

impl FixedWindowRoller {
    pub closed spec fn pattern_spec(&self) -> Seq<char> {
        self.pattern@
    }

    pub closed spec fn compression_spec(&self) -> Compression {
        self.compression
    }

    pub closed spec fn base_spec(&self) -> u32 {
        self.base
    }

    pub closed spec fn count_spec(&self) -> u32 {
        self.count
    }

    /// A roller holds a pattern with a placeholder, and compresses as its extension asks.
    pub closed spec fn wf(&self) -> bool {
        contains(self.pattern@, placeholder()) && (self.compression == Compression::Gzip
            <==> wants_gzip(self.pattern@))
    }

    /// A builder with base index 0.
    pub fn builder() -> (r: FixedWindowRollerBuilder)
        ensures
            r.base_spec() == 0,
    {
        FixedWindowRollerBuilder { base: 0 }
    }

    pub fn pattern(&self) -> (r: &str)
        ensures
            r@ == self.pattern_spec(),
    {
        self.pattern.as_str()
    }

    pub fn compression(&self) -> (r: Compression)
        ensures
            r == self.compression_spec(),
    {
        self.compression
    }

    pub fn base(&self) -> (r: u32)
        ensures
            r == self.base_spec(),
    {
        self.base
    }

    pub fn count(&self) -> (r: u32)
        ensures
            r == self.count_spec(),
    {
        self.count
    }

    /// Whether a roll only deletes the file: so it is where the count is 0.
    pub fn deletes_only(&self) -> (r: bool)
        ensures
            r == (self.count_spec() == 0),
    {
        self.count == 0
    }

    /// The stamped pattern for a rotation of type `roll_type` when the current date is
    /// `today`; `None` where the day before the earliest date would be needed.
    pub fn archive_template_on(&self, today: Date, roll_type: i16) -> (r: Option<String>)
        requires
            today.wf(),
        ensures
            r is Some <==> template_on(self.pattern_spec(), today, roll_type) is Some,
            r matches Some(t) ==> template_on(self.pattern_spec(), today, roll_type) == Some(
                t@,
            ),
    {
        let d = if roll_type == 1 {
            match previous_day(today) {
                Some(p) => p,
                None => return None,
            }
        } else {
            today
        };
        Some(stamp_pattern(self.pattern.as_str(), d))
    }

    /// The stamped pattern for a rotation of type `roll_type` on the current UTC date;
    /// `None` where the clock cannot be read as a date.
    pub fn archive_template(&self, roll_type: i16) -> (r: Option<String>)
        ensures
            r matches Some(t) ==> exists|d: Date|
                d.wf() && d.year >= 1970 && template_on(self.pattern_spec(), d, roll_type) == Some(
                    t@,
                ),
    {
        let secs = match unix_seconds() {
            Some(s) => s,
            None => return None,
        };
        let today = match date_of_timestamp(secs) {
            Some(d) => d,
            None => return None,
        };
        let r = self.archive_template_on(today, roll_type);
        assert(!today.is_earliest());
        r
    }
}

impl FixedWindowRollerBuilder {
    pub closed spec fn base_spec(&self) -> u32 {
        self.base
    }

    /// Sets the base index for archived log files.
    pub fn base(self, base: u32) -> (r: FixedWindowRollerBuilder)
        ensures
            r.base_spec() == base,
    {
        FixedWindowRollerBuilder { base }
    }

    /// Builds a roller for `pattern` that keeps `count` archives.
    pub fn build(self, pattern: &str, count: u32) -> (r: Result<FixedWindowRoller, BuildError>)
        ensures
            !contains(pattern@, placeholder()) <==> r matches Err(BuildError::MissingPlaceholder),
            contains(pattern@, placeholder()) && (GZIP_SUPPORTED || !wants_gzip(pattern@))
                ==> r is Ok,
            r matches Err(e) ==> e == BuildError::MissingPlaceholder || (e
                == BuildError::GzipUnsupported && !GZIP_SUPPORTED && wants_gzip(pattern@)),
            r matches Ok(ro) ==> {
                &&& ro.wf()
                &&& ro.pattern_spec() == pattern@
                &&& ro.base_spec() == self.base_spec()
                &&& ro.count_spec() == count
                &&& ro.compression_spec() == if wants_gzip(pattern@) {
                    Compression::Gzip
                } else {
                    Compression::Plain
                }
            },
    {
        let p = chars_of(pattern);
        let token: Vec<char> = vec!['{', '}'];
        assert(token@ =~= placeholder());
        if !contains_exec(&p, &token) {
            return Err(BuildError::MissingPlaceholder);
        }
        let compression = match select_compression(pattern, GZIP_SUPPORTED) {
            Ok(c) => c,
            Err(e) => return Err(e),
        };
        Ok(
            FixedWindowRoller {
                pattern: string_of(&p),
                compression,
                base: self.base,
                count,
            },
        )
    }
}

impl FixedWindowRollerDeserializer {
    /// Builds the roller that `config` describes; the base defaults to 0.
    pub fn deserialize(&self, config: FixedWindowRollerConfig) -> (r: Result<
        FixedWindowRoller,
        BuildError,
    >)
        ensures
            !contains(config.pattern@, placeholder()) <==> r matches Err(
                BuildError::MissingPlaceholder,
            ),
            contains(config.pattern@, placeholder()) ==> r is Ok,
            r matches Ok(ro) ==> {
                &&& ro.wf()
                &&& ro.pattern_spec() == config.pattern@
                &&& ro.base_spec() == match config.base {
                    Some(b) => b,
                    None => 0,
                }
                &&& ro.count_spec() == config.count
            },
    {
        let mut builder = FixedWindowRoller::builder();
        if let Some(base) = config.base {
            builder = builder.base(base);
        }
        builder.build(config.pattern.as_str(), config.count)
    }
}

/// The search for a free archive slot: the index under consideration, from the base
/// upward, and the stamped pattern that names the slots.
#[derive(Clone, Debug)]
pub struct ArchiveSearch {
    template: String,
    index: u32,
}

impl ArchiveSearch {
    pub closed spec fn template_spec(&self) -> Seq<char> {
        self.template@
    }

    pub closed spec fn index_spec(&self) -> u32 {
        self.index
    }

    /// Starts at index `base`.
    pub fn start(template: String, base: u32) -> (r: ArchiveSearch)
        ensures
            r.template_spec() == template@,
            r.index_spec() == base,
    {
        ArchiveSearch { template, index: base }
    }

    pub fn index(&self) -> (r: u32)
        ensures
            r == self.index_spec(),
    {
        self.index
    }

    /// The path of the slot under consideration.
    pub fn candidate(&self) -> (r: String)
        ensures
            r@ == slot_path(self.template_spec(), self.index_spec() as nat),
    {
        archive_path(self.template.as_str(), self.index)
    }

    /// Moves on to the next index, where the slot under consideration is taken.
    /// Returns `false`, and stays, where no higher index exists.
    pub fn advance(&mut self) -> (r: bool)
        ensures
            r == (old(self).index_spec() < u32::MAX),
            final(self).template_spec() == old(self).template_spec(),
            r ==> final(self).index_spec() == old(self).index_spec() + 1,
            !r ==> final(self).index_spec() == old(self).index_spec(),
    {
        if self.index == u32::MAX {
            false
        } else {
            self.index = self.index + 1;
            true
        }
    }
}

/// What the search does with the slot under consideration.
#[derive(Clone, Copy, Debug, PartialEq, Eq, Hash)]
pub enum SlotStep {
    /// The slot is free: archive there.
    Use,
    /// The slot was taken: the search moved on to the next index.
    Advanced,
    /// The slot was taken and no higher index exists.
    Exhausted,
}

impl ArchiveSearch {
    /// Decides on the slot under consideration, given whether a file occupies it: a
    /// free slot is used; a taken one moves the search to the next index, unless the
    /// index is the largest.
    pub fn on_slot(&mut self, occupied: bool) -> (r: SlotStep)
        ensures
            final(self).template_spec() == old(self).template_spec(),
            !occupied ==> (r == SlotStep::Use && final(self).index_spec() == old(
                self,
            ).index_spec()),
            occupied && old(self).index_spec() < u32::MAX ==> (r == SlotStep::Advanced
                && final(self).index_spec() == old(self).index_spec() + 1),
            occupied && old(self).index_spec() == u32::MAX ==> (r == SlotStep::Exhausted
                && final(self).index_spec() == old(self).index_spec()),
    {
        if !occupied {
            SlotStep::Use
        } else if self.advance() {
            SlotStep::Advanced
        } else {
            SlotStep::Exhausted
        }
    }
}

/// What came of an attempt to rename a file into place.
#[derive(Clone, Copy, Debug, PartialEq, Eq, Hash)]
pub enum RenameOutcome {
    Renamed,
    /// The source did not exist.
    SourceMissing,
    /// Any other failure, such as a destination on another device.
    Failed,
}

/// What a move does after its rename attempt.
#[derive(Clone, Copy, Debug, PartialEq, Eq, Hash)]
pub enum MoveStep {
    /// The move is over, successfully.
    Done,
    /// Copy the source to the destination, then remove the source.
    CopyThenRemove,
}

/// The step after a rename attempt: a missing source counts as a move already made,
/// and any other failure falls back to copy and remove.
pub fn move_step(outcome: RenameOutcome) -> (r: MoveStep)
    ensures
        outcome == RenameOutcome::Renamed ==> r == MoveStep::Done,
        outcome == RenameOutcome::SourceMissing ==> r == MoveStep::Done,
        outcome == RenameOutcome::Failed ==> r == MoveStep::CopyThenRemove,
{
    match outcome {
        RenameOutcome::Renamed => MoveStep::Done,
        RenameOutcome::SourceMissing => MoveStep::Done,
        RenameOutcome::Failed => MoveStep::CopyThenRemove,
    }
}

/// The state that background rotations of one roller share: whether no rotation is
/// in flight.
#[derive(Clone, Copy, Debug, PartialEq, Eq, Hash)]
pub struct BackgroundState {
    ready: bool,
}

impl BackgroundState {
    pub closed spec fn is_ready(&self) -> bool {
        self.ready
    }

    /// No rotation is in flight.
    pub fn new() -> (r: BackgroundState)
        ensures
            r.is_ready(),
    {
        BackgroundState { ready: true }
    }

    /// Claims the right to rotate. Returns `true`, and marks a rotation in flight, when
    /// none was; returns `false`, with the state unchanged, when one is, and the caller
    /// must wait for `finish`.
    pub fn try_begin(&mut self) -> (r: bool)
        ensures
            r == old(self).is_ready(),
            !final(self).is_ready(),
    {
        if self.ready {
            self.ready = false;
            true
        } else {
            false
        }
    }

    /// The rotation in flight is over.
    pub fn finish(&mut self)
        ensures
            final(self).is_ready(),
    {
        self.ready = true;
    }
}

/// A rotation of type 1 stamps its archive with the calendar day before the current
/// date, and any other type with the current date itself.
pub proof fn law_roll_type_stamps_previous_day(pattern: Seq<char>, today: Date)
    requires
        today.wf(),
        !today.is_earliest(),
    ensures
        today.previous().wf(),
        template_on(pattern, today, 1) == Some(stamped_on(pattern, today.previous())),
        template_on(pattern, today, 0) == Some(stamped_on(pattern, today)),
{
}

/// Distinct indices name distinct archive slots: a rotation that moves past an
/// occupied slot never writes over it.
pub proof fn law_distinct_indices_distinct_slots(template: Seq<char>, i: nat, j: nat)
    requires
        contains(template, placeholder()),
        i != j,
    ensures
        slot_path(template, i) != slot_path(template, j),
{
    if slot_path(template, i) == slot_path(template, j) {
        lemma_replace_injective(template, placeholder(), decimal(i), decimal(j));
        lemma_decimal_injective(i, j);
    }
}

} // verus!
