//! The text form of modules.
//!
//! A module is written as nine lines: eight rows of tiles, top row first,
//! then a line that holds only `-`. A row is read up to its trailing white
//! space; tiles it does not spell out are air. A last line on its own must
//! be blank and ends the list.

use vstd::prelude::*;
use vstd::string::*;
use crate::grid::{module_tiles, Module, Tile, GRID_HEIGHT, GRID_WIDTH, TILE_MAX_HEALTH};

verus! {

/// Lines that one module takes up.
pub const LINES_PER_MODULE: usize = 9;

/// Why a row of text is not a row of tiles.
#[derive(Clone, Copy, Debug, PartialEq, Eq, Structural)]
pub enum RowError {
    /// A character that stands for no tile.
    UnknownCharacter { character: char, position: usize },
    /// A tile beyond the width of a module.
    TooLong,
}

/// Why a text is not a list of modules. Lines count from zero.
#[derive(Clone, Copy, Debug, PartialEq, Eq, Structural)]
pub enum ModulesError {
    /// The last line stands alone and is not blank.
    TrailingText { line: usize },
    /// The text ends within a module that starts at `line`.
    WrongLineCount { line: usize, found: usize },
    /// The line after the eight rows does not hold `-` alone.
    MissingSeparator { line: usize },
    /// A row cannot be read.
    BadRow { line: usize, error: RowError },
}

/// White space as Unicode defines it.
pub open spec fn is_whitespace(c: char) -> bool {
    let code = c as u32;
    ||| 0x09 <= code <= 0x0D
    ||| code == 0x20
    ||| code == 0x85
    ||| code == 0xA0
    ||| code == 0x1680
    ||| 0x2000 <= code <= 0x200A
    ||| code == 0x2028
    ||| code == 0x2029
    ||| code == 0x202F
    ||| code == 0x205F
    ||| code == 0x3000
}

pub fn char_is_whitespace(c: char) -> (b: bool)
    ensures
        b == is_whitespace(c),
{
    let code: u32 = c as u32;
    (0x09 <= code && code <= 0x0D) || code == 0x20 || code == 0x85 || code == 0xA0 || code
        == 0x1680 || (0x2000 <= code && code <= 0x200A) || code == 0x2028 || code == 0x2029
        || code == 0x202F || code == 0x205F || code == 0x3000
}

/// The tile that a character stands for.
pub open spec fn tile_of_char(c: char) -> Option<Tile> {
    if c == '#' {
        Some(Tile::Solid(TILE_MAX_HEALTH))
    } else if c == ' ' {
        Some(Tile::Air)
    } else if c == '[' {
        Some(Tile::Start(0))
    } else if c == '!' {
        Some(Tile::Start(1))
    } else if c == ']' {
        Some(Tile::Start(2))
    } else if c == '?' {
        Some(Tile::Leave)
    } else {
        None
    }
}

/// The character that stands for a tile.
pub open spec fn char_of_tile(tile: Tile) -> char {
    match tile {
        Tile::Air => ' ',
        Tile::Solid(_) => '#',
        Tile::Start(lane) => if lane == 0 {
            '['
        } else if lane == 1 {
            '!'
        } else {
            ']'
        },
        Tile::Leave => '?',
    }
}

/// A tile as the text form writes it: at full health, in one of three lanes.
pub open spec fn pristine(tile: Tile) -> bool {
    match tile {
        Tile::Air => true,
        Tile::Solid(health) => health == TILE_MAX_HEALTH,
        Tile::Start(lane) => lane <= 2,
        Tile::Leave => true,
    }
}

pub fn to_tile(c: char) -> (r: Option<Tile>)
    ensures
        r == tile_of_char(c),
{
    if c == '#' {
        Some(Tile::Solid(TILE_MAX_HEALTH))
    } else if c == ' ' {
        Some(Tile::Air)
    } else if c == '[' {
        Some(Tile::Start(0))
    } else if c == '!' {
        Some(Tile::Start(1))
    } else if c == ']' {
        Some(Tile::Start(2))
    } else if c == '?' {
        Some(Tile::Leave)
    } else {
        None
    }
}

pub fn tile_to_char(tile: Tile) -> (c: char)
    ensures
        c == char_of_tile(tile),
{
    match tile {
        Tile::Air => ' ',
        Tile::Solid(_) => '#',
        Tile::Start(lane) => if lane == 0 {
            '['
        } else if lane == 1 {
            '!'
        } else {
            ']'
        },
        Tile::Leave => '?',
    }
}

/// Length of `text` without its trailing white space.
pub open spec fn trimmed_len(text: Seq<char>) -> nat
    decreases text.len(),
{
    if text.len() == 0 {
        0
    } else if is_whitespace(text.last()) {
        trimmed_len(text.drop_last())
    } else {
        text.len()
    }
}

/// The character at `i` keeps `text` from being a row: it stands for no
/// tile, or it lies beyond the width of a module.
pub open spec fn offends(text: Seq<char>, i: int) -> bool {
    tile_of_char(text[i]) is None || i >= GRID_WIDTH
}

/// The first offending position among the first `upto` characters.
pub open spec fn first_offence(text: Seq<char>, upto: nat) -> Option<int>
    decreases upto,
{
    if upto == 0 {
        None
    } else {
        match first_offence(text, (upto - 1) as nat) {
            Some(i) => Some(i),
            None => if offends(text, upto - 1) {
                Some(upto - 1)
            } else {
                None
            },
        }
    }
}

/// The tiles that a row of text without offence spells, filled up with air.
pub open spec fn row_tiles(text: Seq<char>) -> Seq<Tile> {
    Seq::new(
        GRID_WIDTH as nat,
        |i: int|
            if i < text.len() {
                match tile_of_char(text[i]) {
                    Some(tile) => tile,
                    None => Tile::Air,
                }
            } else {
                Tile::Air
            },
    )
}

/// What a line of text means as a row of tiles. The line is read without its
/// trailing white space; its first offending character decides the error.
pub open spec fn parse_row(line: Seq<char>) -> Result<Seq<Tile>, RowError> {
    let text = line.take(trimmed_len(line) as int);
    match first_offence(text, text.len()) {
        Some(i) => if tile_of_char(text[i]) is None {
            Err(RowError::UnknownCharacter { character: text[i], position: i as usize })
        } else {
            Err(RowError::TooLong)
        },
        None => Ok(row_tiles(text)),
    }
}

/// The text of a row of tiles, one character per tile.
pub open spec fn row_text(row: Seq<Tile>) -> Seq<char> {
    row.map_values(|tile: Tile| char_of_tile(tile))
}

pub proof fn lemma_trimmed_len(text: Seq<char>)
    ensures
        trimmed_len(text) <= text.len(),
        trimmed_len(text) > 0 ==> !is_whitespace(text[trimmed_len(text) - 1]),
        forall|i: int| trimmed_len(text) <= i < text.len() ==> is_whitespace(#[trigger] text[i]),
    decreases text.len(),
{
    if text.len() > 0 && is_whitespace(text.last()) {
        let front = text.drop_last();
        lemma_trimmed_len(front);
        assert forall|i: int| trimmed_len(text) <= i < text.len() implies is_whitespace(
            #[trigger] text[i],
        ) by {
            if i < front.len() {
                assert(text[i] == front[i]);
            }
        }
    }
}

/// The length without trailing white space is the only position that has
/// white space alone after it and none just before it.
pub proof fn lemma_trimmed_len_unique(text: Seq<char>, end: int)
    requires
        0 <= end <= text.len(),
        end > 0 ==> !is_whitespace(text[end - 1]),
        forall|i: int| end <= i < text.len() ==> is_whitespace(#[trigger] text[i]),
    ensures
        trimmed_len(text) == end,
    decreases text.len(),
{
    if text.len() > 0 && is_whitespace(text.last()) {
        let front = text.drop_last();
        assert forall|i: int| end <= i < front.len() implies is_whitespace(#[trigger] front[i]) by {
            assert(front[i] == text[i]);
        }
        lemma_trimmed_len_unique(front, end);
    }
}

pub proof fn lemma_first_offence(text: Seq<char>, upto: nat)
    requires
        upto <= text.len(),
    ensures
        match first_offence(text, upto) {
            Some(i) => 0 <= i < upto && offends(text, i) && forall|j: int|
                0 <= j < i ==> !offends(text, j),
            None => forall|j: int| 0 <= j < upto ==> !offends(text, j),
        },
    decreases upto,
{
    if upto > 0 {
        lemma_first_offence(text, (upto - 1) as nat);
    }
}

/// Reads a line of text as a row of tiles.
pub fn text_to_row(row: &str) -> (r: Result<[Tile; GRID_WIDTH], RowError>)
    ensures
        match r {
            Ok(tiles) => parse_row(row@) == Ok::<Seq<Tile>, RowError>(tiles@),
            Err(error) => parse_row(row@) == Err::<Seq<Tile>, RowError>(error),
        },
{
    let len: usize = row.unicode_len();
    let mut end: usize = len;
    while end > 0 && char_is_whitespace(row.get_char(end - 1))
        invariant
            end <= len,
            len == row@.len(),
            forall|i: int| end <= i < len ==> is_whitespace(#[trigger] row@[i]),
        decreases end,
    {
        end -= 1;
    }
    proof {
        lemma_trimmed_len_unique(row@, end as int);
    }
    let ghost text = row@.take(end as int);
    let mut tiles: [Tile; GRID_WIDTH] = [Tile::Air; 32];
    let mut i: usize = 0;
    while i < end
        invariant
            i <= end,
            end <= row@.len(),
            text == row@.take(end as int),
            trimmed_len(row@) == end,
            first_offence(text, i as nat) is None,
            forall|j: int| 0 <= j < i ==> tile_of_char(text[j]) == Some(#[trigger] tiles@[j]),
            forall|j: int| i <= j < GRID_WIDTH ==> tiles@[j] == Tile::Air,
        decreases end - i,
    {
        let character = row.get_char(i);
        proof {
            assert(text.len() == end);
            assert(text[i as int] == character);
            lemma_first_offence(text, i as nat);
            lemma_first_offence(text, text.len());
        }
        match to_tile(character) {
            Some(tile) => {
                if i >= GRID_WIDTH {
                    assert(offends(text, i as int));
                    return Err(RowError::TooLong);
                }
                tiles[i] = tile;
            },
            None => {
                assert(offends(text, i as int));
                return Err(RowError::UnknownCharacter { character, position: i });
            },
        }
        i += 1;
    }
    proof {
        lemma_first_offence(text, i as nat);
        assert(tiles@ =~= row_tiles(text));
    }
    Ok(tiles)
}

/// Writes a row of tiles as text, one character per tile.
pub fn row_to_text(row: &[Tile; GRID_WIDTH]) -> (text: Vec<char>)
    ensures
        text@ == row_text(row@),
{
    let mut text: Vec<char> = Vec::new();
    let mut i: usize = 0;
    while i < GRID_WIDTH
        invariant
            i <= GRID_WIDTH,
            text@.len() == i,
            forall|j: int| 0 <= j < i ==> text@[j] == char_of_tile(row@[j]),
        decreases GRID_WIDTH - i,
    {
        text.push(tile_to_char(row[i]));
        i += 1;
    }
    assert(text@ =~= row_text(row@));
    text
}

/// Every character of `text` stands for a tile.
pub open spec fn spells_tiles(text: Seq<char>) -> bool {
    forall|i: int| 0 <= i < text.len() ==> tile_of_char(#[trigger] text[i]) is Some
}

/// Every tile of `row` is as the text form writes it.
pub open spec fn all_pristine(row: Seq<Tile>) -> bool {
    forall|i: int| 0 <= i < row.len() ==> pristine(#[trigger] row[i])
}

/// Reading a full-width row of text and writing the tiles back gives the
/// text again.
pub proof fn lemma_row_text_round_trip(text: Seq<char>)
    requires
        text.len() == GRID_WIDTH,
        spells_tiles(text),
    ensures
        parse_row(text) is Ok,
        row_text(parse_row(text)->Ok_0) == text,
{
    lemma_trimmed_len(text);
    let trimmed = text.take(trimmed_len(text) as int);
    lemma_first_offence(trimmed, trimmed.len());
    match first_offence(trimmed, trimmed.len()) {
        Some(i) => {
            assert(trimmed[i] == text[i]);
        },
        None => {},
    }
    let tiles = row_tiles(trimmed);
    assert forall|i: int| 0 <= i < GRID_WIDTH implies #[trigger] row_text(tiles)[i] == text[i] by {
        assert(tile_of_char(text[i]) is Some);
        if i < trimmed.len() {
            assert(trimmed[i] == text[i]);
        } else {
            assert(is_whitespace(text[i]));
        }
    }
    assert(row_text(tiles) =~= text);
}

/// Writing a row of tiles at full health and reading the text back gives
/// the tiles again.
pub proof fn lemma_row_tiles_round_trip(row: Seq<Tile>)
    requires
        row.len() == GRID_WIDTH,
        all_pristine(row),
    ensures
        parse_row(row_text(row)) == Ok::<Seq<Tile>, RowError>(row),
{
    let text = row_text(row);
    assert forall|i: int| 0 <= i < text.len() implies tile_of_char(#[trigger] text[i]) == Some(
        row[i],
    ) by {
        assert(pristine(row[i]));
    }
    lemma_trimmed_len(text);
    let trimmed = text.take(trimmed_len(text) as int);
    lemma_first_offence(trimmed, trimmed.len());
    match first_offence(trimmed, trimmed.len()) {
        Some(i) => {
            assert(trimmed[i] == text[i]);
        },
        None => {},
    }
    assert forall|i: int| 0 <= i < GRID_WIDTH implies #[trigger] row_tiles(trimmed)[i] == row[i] by {
        assert(tile_of_char(text[i]) == Some(row[i]));
        if i < trimmed.len() {
            assert(trimmed[i] == text[i]);
        } else {
            assert(is_whitespace(text[i]));
        }
    }
    assert(row_tiles(trimmed) =~= row);
}

/// The text of a module's rows, top row first.
pub open spec fn module_text(tiles: Seq<Seq<Tile>>) -> Seq<Seq<char>> {
    Seq::new(GRID_HEIGHT as nat, |i: int| row_text(tiles[GRID_HEIGHT - 1 - i]))
}

/// Writes the rows of a module as text, top row first, one character per
/// tile.
pub fn module_to_text(module: &Module) -> (text: Vec<Vec<char>>)
    ensures
        text@.len() == GRID_HEIGHT,
        forall|i: int| 0 <= i < GRID_HEIGHT ==> (#[trigger] text@[i])@ == module_text(
            module_tiles(*module),
        )[i],
{
    let mut text: Vec<Vec<char>> = Vec::new();
    let mut i: usize = 0;
    while i < GRID_HEIGHT
        invariant
            i <= GRID_HEIGHT,
            text@.len() == i,
            forall|k: int| 0 <= k < i ==> (#[trigger] text@[k])@ == module_text(
                module_tiles(*module),
            )[k],
        decreases GRID_HEIGHT - i,
    {
        text.push(row_to_text(&module[GRID_HEIGHT - 1 - i]));
        i += 1;
    }
    text
}

/// The line holds white space only.
pub open spec fn is_blank(line: Seq<char>) -> bool {
    forall|i: int| 0 <= i < line.len() ==> is_whitespace(#[trigger] line[i])
}

/// The line holds one `-` and otherwise white space only.
pub open spec fn is_separator(line: Seq<char>) -> bool {
    exists|i: int| separator_at(line, i)
}

/// The line holds `-` at `i` and otherwise white space only.
pub open spec fn separator_at(line: Seq<char>, i: int) -> bool {
    &&& 0 <= i < line.len()
    &&& line[i] == '-'
    &&& forall|j: int| 0 <= j < line.len() && j != i ==> is_whitespace(#[trigger] line[j])
}

pub fn is_blank_line(line: &str) -> (b: bool)
    ensures
        b == is_blank(line@),
{
    let len: usize = line.unicode_len();
    let mut i: usize = 0;
    while i < len
        invariant
            i <= len,
            len == line@.len(),
            forall|j: int| 0 <= j < i ==> is_whitespace(#[trigger] line@[j]),
        decreases len - i,
    {
        if !char_is_whitespace(line.get_char(i)) {
            return false;
        }
        i += 1;
    }
    true
}

pub fn is_separator_line(line: &str) -> (b: bool)
    ensures
        b == is_separator(line@),
{
    let len: usize = line.unicode_len();
    let mut found: Option<usize> = None;
    let mut i: usize = 0;
    while i < len
        invariant
            i <= len,
            len == line@.len(),
            match found {
                Some(at) => at < i && line@[at as int] == '-' && forall|j: int|
                    0 <= j < i && j != at ==> is_whitespace(#[trigger] line@[j]),
                None => forall|j: int| 0 <= j < i ==> is_whitespace(#[trigger] line@[j]),
            },
        decreases len - i,
    {
        let c = line.get_char(i);
        if c == '-' {
            if found.is_some() {
                assert(!is_separator(line@)) by {
                    assert(!is_whitespace('-'));
                    assert forall|k: int| !separator_at(line@, k) by {
                        if separator_at(line@, k) {
                            if k == i {
                                assert(is_whitespace(line@[found.unwrap() as int]));
                            } else {
                                assert(is_whitespace(line@[i as int]));
                            }
                        }
                    }
                }
                return false;
            }
            found = Some(i);
        } else if !char_is_whitespace(c) {
            assert(!is_separator(line@)) by {
                assert forall|k: int| !separator_at(line@, k) by {
                    if separator_at(line@, k) {
                        assert(is_whitespace(line@[i as int]));
                    }
                }
            }
            return false;
        }
        i += 1;
    }
    match found {
        Some(at) => {
            assert(separator_at(line@, at as int));
            true
        },
        None => {
            assert(!is_separator(line@)) by {
                assert(!is_whitespace('-'));
                assert forall|k: int| !separator_at(line@, k) by {
                    if separator_at(line@, k) {
                        assert(is_whitespace(line@[k]));
                    }
                }
            }
            false
        },
    }
}

/// The texts of the lines.
pub open spec fn line_texts(lines: Seq<String>) -> Seq<Seq<char>> {
    lines.map_values(|line: String| line@)
}

/// The tiles of the modules.
pub open spec fn modules_tiles(modules: Seq<Module>) -> Seq<Seq<Seq<Tile>>> {
    modules.map_values(|module: Module| module_tiles(module))
}

/// The first row that cannot be read among the first `upto` rows of the
/// module whose text starts at line `start`.
pub open spec fn first_bad_row(lines: Seq<Seq<char>>, start: int, upto: nat) -> Option<
    ModulesError,
>
    decreases upto,
{
    if upto == 0 {
        None
    } else {
        match first_bad_row(lines, start, (upto - 1) as nat) {
            Some(error) => Some(error),
            None => match parse_row(lines[start + upto - 1]) {
                Err(error) => Some(
                    ModulesError::BadRow { line: (start + upto - 1) as usize, error },
                ),
                Ok(_) => None,
            },
        }
    }
}

/// The tiles of the module whose text starts at line `start`, bottom row
/// first: the text holds the top row first.
pub open spec fn chunk_tiles(lines: Seq<Seq<char>>, start: int) -> Seq<Seq<Tile>> {
    Seq::new(
        GRID_HEIGHT as nat,
        |y: int|
            match parse_row(lines[start + GRID_HEIGHT - 1 - y]) {
                Ok(row) => row,
                Err(_) => Seq::empty(),
            },
    )
}

/// What the lines from `start` on mean as a list of modules.
pub open spec fn parse_modules_from(lines: Seq<Seq<char>>, start: int) -> Result<
    Seq<Seq<Seq<Tile>>>,
    ModulesError,
>
    decreases lines.len() - start,
{
    let remaining = lines.len() - start;
    if start < 0 || remaining <= 0 {
        Ok(Seq::empty())
    } else if remaining == 1 {
        if is_blank(lines[start]) {
            Ok(Seq::empty())
        } else {
            Err(ModulesError::TrailingText { line: start as usize })
        }
    } else if remaining < LINES_PER_MODULE {
        Err(ModulesError::WrongLineCount { line: start as usize, found: remaining as usize })
    } else if !is_separator(lines[start + GRID_HEIGHT]) {
        Err(ModulesError::MissingSeparator { line: (start + GRID_HEIGHT) as usize })
    } else {
        match first_bad_row(lines, start, GRID_HEIGHT as nat) {
            Some(error) => Err(error),
            None => match parse_modules_from(lines, start + LINES_PER_MODULE) {
                Ok(rest) => Ok(seq![chunk_tiles(lines, start)] + rest),
                Err(error) => Err(error),
            },
        }
    }
}

/// What the lines of a text mean as a list of modules.
pub open spec fn parse_modules(lines: Seq<Seq<char>>) -> Result<
    Seq<Seq<Seq<Tile>>>,
    ModulesError,
> {
    parse_modules_from(lines, 0)
}

/// `done` followed by what the rest of the text means.
pub open spec fn after(
    done: Seq<Seq<Seq<Tile>>>,
    rest: Result<Seq<Seq<Seq<Tile>>>, ModulesError>,
) -> Result<Seq<Seq<Seq<Tile>>>, ModulesError> {
    match rest {
        Ok(more) => Ok(done + more),
        Err(error) => Err(error),
    }
}

/// Reads the lines of a modules file. The first fault in the text decides
/// the error; no module is handed out beside an error.
pub fn parse_modules_file(lines: &Vec<String>) -> (r: Result<Vec<Module>, ModulesError>)
    ensures
        match r {
            Ok(modules) => parse_modules(line_texts(lines@)) == Ok::<
                Seq<Seq<Seq<Tile>>>,
                ModulesError,
            >(modules_tiles(modules@)),
            Err(error) => parse_modules(line_texts(lines@)) == Err::<
                Seq<Seq<Seq<Tile>>>,
                ModulesError,
            >(error),
        },
{
    let ghost texts = line_texts(lines@);
    let mut modules_list: Vec<Module> = Vec::new();
    let count: usize = lines.len();
    let mut start: usize = 0;
    assert(modules_tiles(modules_list@) + Seq::<Seq<Seq<Tile>>>::empty() =~= modules_tiles(
        modules_list@,
    ));
    while start < count
        invariant
            start <= count,
            count == lines@.len(),
            texts == line_texts(lines@),
            parse_modules(texts) == after(
                modules_tiles(modules_list@),
                parse_modules_from(texts, start as int),
            ),
        decreases count - start,
    {
        let remaining: usize = count - start;
        // last line in file, stop parsing
        if remaining == 1 {
            if is_blank_line(lines[start].as_str()) {
                assert(modules_tiles(modules_list@) + Seq::<Seq<Seq<Tile>>>::empty()
                    =~= modules_tiles(modules_list@));
                return Ok(modules_list);
            }
            return Err(ModulesError::TrailingText { line: start });
        }
        if remaining < LINES_PER_MODULE {
            return Err(ModulesError::WrongLineCount { line: start, found: remaining });
        }
        if !is_separator_line(lines[start + GRID_HEIGHT].as_str()) {
            return Err(ModulesError::MissingSeparator { line: start + GRID_HEIGHT });
        }
        let mut grid: Module = [[Tile::Air; 32]; 8];
        let mut i: usize = 0;
        while i < GRID_HEIGHT
            invariant
                i <= GRID_HEIGHT,
                start + LINES_PER_MODULE <= count,
                count == lines@.len(),
                texts == line_texts(lines@),
                is_separator(texts[start + GRID_HEIGHT]),
                parse_modules(texts) == after(
                    modules_tiles(modules_list@),
                    parse_modules_from(texts, start as int),
                ),
                first_bad_row(texts, start as int, i as nat) is None,
                forall|k: int|
                    0 <= k < i ==> parse_row(texts[start + k]) == Ok::<Seq<Tile>, RowError>(
                        #[trigger] grid@[GRID_HEIGHT - 1 - k]@,
                    ),
            decreases GRID_HEIGHT - i,
        {
            match text_to_row(lines[start + i].as_str()) {
                Ok(row) => {
                    grid[GRID_HEIGHT - 1 - i] = row;
                },
                Err(error) => {
                    proof {
                        assert(texts[start + i] == lines@[start + i]@);
                        assert(first_bad_row(texts, start as int, (i + 1) as nat) == Some(
                            ModulesError::BadRow { line: (start + i) as usize, error },
                        ));
                        lemma_first_bad_row_stays(texts, start as int, (i + 1) as nat);
                    }
                    return Err(ModulesError::BadRow { line: start + i, error });
                },
            }
            i += 1;
        }
        proof {
            let tiles = module_tiles(grid);
            assert forall|y: int| 0 <= y < GRID_HEIGHT implies #[trigger] tiles[y] == chunk_tiles(
                texts,
                start as int,
            )[y] by {
                let k = GRID_HEIGHT - 1 - y;
                assert(parse_row(texts[start + k]) == Ok::<Seq<Tile>, RowError>(
                    grid@[GRID_HEIGHT - 1 - k]@,
                ));
            }
            assert(tiles =~= chunk_tiles(texts, start as int));
            let done = modules_tiles(modules_list@);
            let rest = parse_modules_from(texts, start + LINES_PER_MODULE);
            assert(modules_tiles(modules_list@.push(grid)) =~= done.push(tiles));
            match rest {
                Ok(more) => {
                    assert(done + (seq![tiles] + more) =~= done.push(tiles) + more);
                },
                Err(_) => {},
            }
        }
        modules_list.push(grid);
        start += LINES_PER_MODULE;
    }
    assert(modules_tiles(modules_list@) + Seq::<Seq<Seq<Tile>>>::empty() =~= modules_tiles(
        modules_list@,
    ));
    Ok(modules_list)
}

/// Reading the text of one module, eight full-width rows and the separator,
/// and writing the tiles back gives the rows again.
pub proof fn lemma_module_text_round_trip(lines: Seq<Seq<char>>)
    requires
        lines.len() == LINES_PER_MODULE,
        forall|i: int|
            0 <= i < GRID_HEIGHT ==> (#[trigger] lines[i]).len() == GRID_WIDTH && spells_tiles(
                lines[i],
            ),
        is_separator(lines[GRID_HEIGHT as int]),
    ensures
        parse_modules(lines) is Ok,
        parse_modules(lines)->Ok_0.len() == 1,
        module_text(parse_modules(lines)->Ok_0[0]) == lines.take(GRID_HEIGHT as int),
{
    lemma_no_bad_row(lines, GRID_HEIGHT as nat);
    assert(parse_modules_from(lines, LINES_PER_MODULE as int) == Ok::<
        Seq<Seq<Seq<Tile>>>,
        ModulesError,
    >(Seq::empty()));
    let tiles = chunk_tiles(lines, 0);
    assert(parse_modules(lines)->Ok_0 =~= seq![tiles]);
    assert forall|i: int| 0 <= i < GRID_HEIGHT implies #[trigger] module_text(tiles)[i]
        == lines[i] by {
        lemma_row_text_round_trip(lines[i]);
    }
    assert(module_text(tiles) =~= lines.take(GRID_HEIGHT as int));
}

/// Rows that spell tiles at full width are read without fault.
pub proof fn lemma_no_bad_row(lines: Seq<Seq<char>>, upto: nat)
    requires
        upto <= GRID_HEIGHT,
        upto <= lines.len(),
        forall|i: int|
            0 <= i < upto ==> (#[trigger] lines[i]).len() == GRID_WIDTH && spells_tiles(lines[i]),
    ensures
        first_bad_row(lines, 0, upto) is None,
    decreases upto,
{
    if upto > 0 {
        lemma_no_bad_row(lines, (upto - 1) as nat);
        lemma_row_text_round_trip(lines[upto - 1]);
    }
}

/// A bad row found among the first `upto` rows stays the first bad row
/// when more rows are looked at.
pub proof fn lemma_first_bad_row_stays(lines: Seq<Seq<char>>, start: int, upto: nat)
    requires
        upto <= GRID_HEIGHT,
        first_bad_row(lines, start, upto) is Some,
    ensures
        first_bad_row(lines, start, GRID_HEIGHT as nat) == first_bad_row(lines, start, upto),
{
    lemma_first_bad_row_extends(lines, start, upto, GRID_HEIGHT as nat);
}

pub proof fn lemma_first_bad_row_extends(lines: Seq<Seq<char>>, start: int, upto: nat, more: nat)
    requires
        upto <= more,
        first_bad_row(lines, start, upto) is Some,
    ensures
        first_bad_row(lines, start, more) == first_bad_row(lines, start, upto),
    decreases more,
{
    if upto < more {
        lemma_first_bad_row_extends(lines, start, upto, (more - 1) as nat);
    }
}

} // verus!
