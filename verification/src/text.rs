//! The texts that a frame makes: messages of exceptions, paths, and the frame as text.

use std::path::PathBuf;
use vstd::prelude::*;

verus! {

/// The digit for `d`, which is less than ten.
pub open spec fn digit(d: nat) -> char {
    seq!['0', '1', '2', '3', '4', '5', '6', '7', '8', '9'][d as int]
}

/// `n` in decimal notation, without leading zeros.
pub open spec fn decimal(n: nat) -> Seq<char>
    decreases n,
{
    if n < 10 {
        seq![digit(n)]
    } else {
        decimal(n / 10).push(digit(n % 10))
    }
}

/// The number that a sequence of digits stands for.
pub open spec fn number(digits: Seq<char>) -> nat
    decreases digits.len(),
{
    if digits.len() == 0 {
        0
    } else {
        (10 * number(digits.drop_last()) + (digits.last() as nat - '0' as nat)) as nat
    }
}

/// Decimal notation consists of digits, stands for the number that it is the notation of, and has
/// no zero in front unless it is the notation of zero.
pub proof fn decimal_stands_for_its_number(n: nat)
    ensures
        number(decimal(n)) == n,
        decimal(n).len() > 0,
        forall|i: int| 0 <= i < decimal(n).len() ==> '0' <= #[trigger] decimal(n)[i] <= '9',
        n > 0 ==> decimal(n)[0] != '0',
    decreases n,
{
    if n < 10 {
        assert(decimal(n).drop_last() == Seq::<char>::empty());
        assert(decimal(n).last() == digit(n));
        assert(number(Seq::empty()) == 0);
        assert(digit(n) as nat == '0' as nat + n);
    } else {
        let last = digit(n % 10);
        decimal_stands_for_its_number(n / 10);
        assert(decimal(n).drop_last() == decimal(n / 10));
        assert(last as nat == '0' as nat + n % 10);
        assert(decimal(n)[0] == decimal(n / 10)[0]);
    }
}

fn digit_text(d: usize) -> (text: &'static str)
    requires
        d < 10,
    ensures
        text@ == seq![digit(d as nat)],
{
    proof {
        reveal_strlit("0");
        reveal_strlit("1");
        reveal_strlit("2");
        reveal_strlit("3");
        reveal_strlit("4");
        reveal_strlit("5");
        reveal_strlit("6");
        reveal_strlit("7");
        reveal_strlit("8");
        reveal_strlit("9");
    }
    match d {
        0 => "0",
        1 => "1",
        2 => "2",
        3 => "3",
        4 => "4",
        5 => "5",
        6 => "6",
        7 => "7",
        8 => "8",
        _ => "9",
    }
}

/// Writes a number in decimal notation.
pub fn decimal_text(n: usize) -> (text: String)
    ensures
        text@ == decimal(n as nat),
    decreases n,
{
    if n < 10 {
        String::from_str(digit_text(n))
    } else {
        let mut text = decimal_text(n / 10);
        text.append(digit_text(n % 10));
        text
    }
}

/// What a `NameError` says.
pub open spec fn not_defined(name: Seq<char>) -> Seq<char> {
    "name '"@ + name + "' is not defined"@
}

pub fn not_defined_message(name: &String) -> (message: String)
    ensures
        message@ == not_defined(name@),
{
    let mut message = String::from_str("name '");
    message.append(name.as_str());
    message.append("' is not defined");
    message
}

/// What is said of a sequence that is not as long as the list of targets.
pub open spec fn wrong_number() -> Seq<char> {
    "Wrong number of values to unpack"@
}

pub fn wrong_number_message() -> (message: String)
    ensures
        message@ == wrong_number(),
{
    String::from_str("Wrong number of values to unpack")
}

/// What is said of a sequence that is shorter than the targets beside the starred one.
pub open spec fn not_enough(expected: nat, got: nat) -> Seq<char> {
    "Not enough values to unpack (expected at least "@ + decimal(expected) + ", got "@ + decimal(
        got,
    )
}

pub fn not_enough_message(expected: usize, got: usize) -> (message: String)
    ensures
        message@ == not_enough(expected as nat, got as nat),
{
    let mut message = String::from_str("Not enough values to unpack (expected at least ");
    message.append(decimal_text(expected).as_str());
    message.append(", got ");
    message.append(decimal_text(got).as_str());
    message
}

/// What is said of a type that cannot be searched.
pub open spec fn no_contains(class_name: Seq<char>) -> Seq<char> {
    class_name + " has no __contains__ method"@
}

pub fn no_contains_message(class_name: &String) -> (message: String)
    ensures
        message@ == no_contains(class_name@),
{
    class_name.clone().concat(" has no __contains__ method")
}

/// What is said of an object that cannot be raised.
pub open spec fn not_an_exception(shown: Seq<char>) -> Seq<char> {
    "Can only raise BaseException derived types, not "@ + shown
}

pub fn not_an_exception_message(shown: &String) -> (message: String)
    ensures
        message@ == not_an_exception(shown@),
{
    String::from_str("Can only raise BaseException derived types, not ").concat(shown.as_str())
}

/// Whether `c` separates no components, neither on Unix nor on Windows.
pub open spec fn plain_char(c: char) -> bool {
    c != '/' && c != '\\'
}

/// Whether Windows may take the beginning of `path` for a drive.
pub open spec fn marks_drive(path: Seq<char>) -> bool {
    path.len() > 1 && path[1] == ':'
}

/// Whether `file` is one component on Unix and on Windows, wherever it stands in a path that marks
/// no drive: plain characters, and not a single dot.
pub open spec fn plain_file(file: Seq<char>) -> bool {
    &&& file.len() > 0
    &&& file != seq!['.']
    &&& forall|i: int| 0 <= i < file.len() ==> plain_char(#[trigger] file[i])
}

/// Whether `dir` is a path of such components, with single slashes between them and with or
/// without a slash before the first, which may be a single dot if no slash stands before it.
pub open spec fn plain_directory(dir: Seq<char>) -> bool {
    &&& dir.len() > 0
    &&& dir.last() != '/'
    &&& forall|i: int| 0 <= i < dir.len() ==> plain_char(#[trigger] dir[i]) || dir[i] == '/'
    &&& forall|i: int| 0 < i < dir.len() && dir[i - 1] == '/' ==> (#[trigger] dir[i]) != '/'
    &&& forall|i: int|
        0 < i < dir.len() && dir[i - 1] == '/' && (#[trigger] dir[i]) == '.' ==> i + 1 < dir.len()
            && dir[i + 1] != '/'
}

/// Whether slashes, and nothing else, separate the components of `path` on Unix and on Windows.
pub open spec fn slashed(path: Seq<char>) -> bool {
    &&& forall|i: int| 0 <= i < path.len() ==> plain_char(#[trigger] path[i]) || path[i] == '/'
    &&& !seq!['/', '/'].is_prefix_of(path)
    &&& !marks_drive(path)
}

/// The index of the last slash, or -1.
pub open spec fn last_slash(path: Seq<char>) -> int
    decreases path.len(),
{
    if path.len() == 0 || path.last() == '/' {
        path.len() - 1
    } else {
        last_slash(path.drop_last())
    }
}

/// The last slash lies within the path.
pub proof fn lemma_last_slash(path: Seq<char>)
    ensures
        -1 <= last_slash(path) < path.len(),
    decreases path.len(),
{
    if path.len() > 0 && path.last() != '/' {
        lemma_last_slash(path.drop_last());
    }
}

/// The components of a path that slashes separate: what stands between them, but for empty pieces,
/// and but for single dots other than one at the beginning of the path.
pub open spec fn components(path: Seq<char>) -> Seq<Seq<char>>
    decreases path.len(),
{
    let i = last_slash(path);
    let piece = path.skip(i + 1);
    if path.len() == 0 {
        seq![]
    } else if i < 0 {
        seq![path]
    } else {
        proof {
            lemma_last_slash(path);
        }
        let before = components(path.take(i));
        if piece.len() == 0 || piece == seq!['.'] {
            before
        } else {
            before.push(piece)
        }
    }
}

/// What is known on Unix and on Windows of the directory `dir` of the file `path`: it is a
/// beginning of the path. Where the path marks no drive, a plain file name lies in the directory
/// with the empty path, and one behind a slash in the root; what stands before the last slash of a
/// plain path is the directory. Of any path that slashes separate, the directory has all
/// components but the last, and it starts at the root if the path does; a path without components
/// is its own directory.
pub open spec fn directory_of(path: Seq<char>, dir: Seq<char>) -> bool {
    &&& dir.is_prefix_of(path)
    &&& plain_file(path) && !marks_drive(path) ==> dir == Seq::<char>::empty()
    &&& path.len() > 0 && path[0] == '/' && plain_file(path.skip(1)) && !marks_drive(path)
        ==> dir == seq!['/']
    &&& forall|d: Seq<char>, file: Seq<char>|
        plain_directory(d) && plain_file(file) && !marks_drive(path) && path == #[trigger] (d
            + seq!['/'] + file) ==> dir == d
    &&& slashed(path) && components(path).len() == 0 ==> dir == path
    &&& slashed(path) && components(path).len() > 0 ==> components(dir) == components(
        path,
    ).drop_last() && (path[0] == '/' ==> dir.len() > 0)
}

/// `PathBuf::pop`, which cuts the last component off a path, or leaves the path as it is where
/// there is none to cut off. Where slashes are all that separates components, the contract says
/// which components are left, and for plain paths how the directory is written. Of a path with a
/// backslash, with a colon as its second character, or with two slashes at the beginning, it says
/// only that the directory is a beginning of the path, since there Unix and Windows differ. It
/// holds on the targets of these two families.
#[verifier::external_body]
pub(crate) fn parent_directory(path: &String) -> (dir: String)
    ensures
        directory_of(path@, dir@),
{
    let mut buf = PathBuf::from(path);
    buf.pop();
    buf.to_string_lossy().into_owned()
}

/// Of a path whose last slash stands between a name and a file name that neither platform takes
/// apart, the directory is that name.
pub proof fn directory_is_the_name_before_the_slash(
    path: Seq<char>,
    dir: Seq<char>,
    name: Seq<char>,
    file: Seq<char>,
)
    requires
        directory_of(path, dir),
        path == name + seq!['/'] + file,
        name.len() > 0,
        file.len() > 0,
        file != seq!['.'],
        forall|i: int| 0 <= i < name.len() ==> (#[trigger] name[i]) != '/' && name[i] != '\\',
        forall|i: int| 0 <= i < file.len() ==> (#[trigger] file[i]) != '/' && file[i] != '\\',
        name.len() > 1 ==> name[1] != ':',
    ensures
        dir == name,
{
    assert(plain_directory(name));
    assert(plain_file(file));
    assert(path[1] == (name + seq!['/'])[1]);
}

/// Items of a list, each on a line of its own.
pub open spec fn listed(items: Seq<String>) -> Seq<char>
    decreases items.len(),
{
    if items.len() == 0 {
        Seq::empty()
    } else {
        listed(items.drop_last()) + "\n  > "@ + items.last()@
    }
}

fn list_text(items: &Vec<String>) -> (text: String)
    ensures
        text@ == listed(items@),
{
    let mut text = String::new();
    let mut i: usize = 0;
    while i < items.len()
        invariant
            i <= items.len(),
            text@ == listed(items@.take(i as int)),
        decreases items.len() - i,
    {
        proof {
            assert(items@.take(i + 1).drop_last() == items@.take(i as int));
        }
        text.append("\n  > ");
        text.append(items[i].as_str());
        i = i + 1;
    }
    proof {
        assert(items@.take(i as int) == items@);
    }
    text
}

/// Names with their values, each on a line of its own.
pub open spec fn assigned(entries: Seq<(String, String)>) -> Seq<char>
    decreases entries.len(),
{
    if entries.len() == 0 {
        Seq::empty()
    } else {
        assigned(entries.drop_last()) + "\n  "@ + entries.last().0@ + " = "@ + entries.last().1@
    }
}

fn assigned_text(entries: &Vec<(String, String)>) -> (text: String)
    ensures
        text@ == assigned(entries@),
{
    let mut text = String::new();
    let mut i: usize = 0;
    while i < entries.len()
        invariant
            i <= entries.len(),
            text@ == assigned(entries@.take(i as int)),
        decreases entries.len() - i,
    {
        proof {
            assert(entries@.take(i + 1).drop_last() == entries@.take(i as int));
        }
        text.append("\n  ");
        text.append(entries[i].0.as_str());
        text.append(" = ");
        text.append(entries[i].1.as_str());
        i = i + 1;
    }
    proof {
        assert(entries@.take(i as int) == entries@);
    }
    text
}

/// A list of no items is empty, and each further item starts a line behind the others.
pub proof fn items_are_listed_in_order(
    items: Seq<String>,
    item: String,
    entries: Seq<(String, String)>,
    name: String,
    value: String,
)
    ensures
        listed(Seq::empty()) == Seq::<char>::empty(),
        listed(items.push(item)) == listed(items) + "\n  > "@ + item@,
        assigned(Seq::empty()) == Seq::<char>::empty(),
        assigned(entries.push((name, value))) == assigned(entries) + "\n  "@ + name@ + " = "@
            + value@,
{
    assert(items.push(item).drop_last() == items);
    assert(entries.push((name, value)).drop_last() == entries);
}

/// A frame as text, for a reader who looks for errors. The arguments are the texts of the values
/// on the stack, of the blocks, and of the local names with their values.
pub fn frame_text(
    stack: &Vec<String>,
    blocks: &Vec<String>,
    locals: &Vec<(String, String)>,
) -> (text: String)
    ensures
        text@ == "Frame Object { \n Stack:"@ + listed(stack@) + "\n Blocks:"@ + listed(blocks@)
            + "\n Locals:"@ + assigned(locals@) + "\n}"@,
{
    let mut text = String::from_str("Frame Object { \n Stack:");
    text.append(list_text(stack).as_str());
    text.append("\n Blocks:");
    text.append(list_text(blocks).as_str());
    text.append("\n Locals:");
    text.append(assigned_text(locals).as_str());
    text.append("\n}");
    text
}

} // verus!
