//! Hotkey strings: modifiers joined with `+`, then one key, in any ASCII case.

use crate::text;
use vstd::prelude::*;

verus! {

/// A modifier key of a hotkey.
#[derive(Debug, Clone, Copy, PartialEq, Eq, Structural)]
pub enum Modifier {
    Ctrl,
    Alt,
    Shift,
    Win,
}

/// A parsed hotkey.
#[derive(Debug, Clone, PartialEq, Eq)]
pub struct HotkeySpec {
    pub modifiers: Vec<Modifier>,
    /// Canonical key name e.g. "F8", "A", "PRINTSCREEN"
    pub vk_name: String,
}

/// Why a hotkey string was refused.
#[derive(Debug, Clone, PartialEq, Eq)]
pub enum HotkeyError {
    /// Nothing but white space and `+`.
    Empty,
    /// A word before the last one, in small letters, that names no modifier.
    UnknownModifier(String),
    /// The last word, as written, which names no key.
    UnsupportedKey(String),
}

/// What a `HotkeyError` says.
pub ghost enum HotkeyFault {
    Empty,
    UnknownModifier(Seq<char>),
    UnsupportedKey(Seq<char>),
}

impl View for HotkeyError {
    type V = HotkeyFault;

    open spec fn view(&self) -> HotkeyFault {
        match self {
            HotkeyError::Empty => HotkeyFault::Empty,
            HotkeyError::UnknownModifier(w) => HotkeyFault::UnknownModifier(w@),
            HotkeyError::UnsupportedKey(w) => HotkeyFault::UnsupportedKey(w@),
        }
    }
}

/// The modifier that a word names, in any ASCII case.
pub open spec fn modifier_named(word: Seq<char>) -> Option<Modifier> {
    let w = text::lower(word);
    if w == "ctrl"@ || w == "control"@ {
        Some(Modifier::Ctrl)
    } else if w == "alt"@ {
        Some(Modifier::Alt)
    } else if w == "shift"@ {
        Some(Modifier::Shift)
    } else if w == "win"@ || w == "super"@ || w == "meta"@ {
        Some(Modifier::Win)
    } else {
        None
    }
}

/// The words of a hotkey string: what stands between its `+`, trimmed, without the empty ones.
pub open spec fn pieces(s: Seq<char>) -> Seq<Seq<char>>
    decreases s.len(),
    via pieces_decreases
{
    let i = text::first_index(s, '+');
    let word = text::trim(s.take(i));
    let rest = if i < s.len() {
        pieces(s.skip(i + 1))
    } else {
        Seq::empty()
    };
    if word.len() > 0 {
        seq![word] + rest
    } else {
        rest
    }
}

#[via_fn]
proof fn pieces_decreases(s: Seq<char>) {
    text::first_index_is_first(s, '+');
}

/// The modifiers that `words` name, or the first word that names none.
pub open spec fn modifiers_named(words: Seq<Seq<char>>) -> Result<Seq<Modifier>, HotkeyFault>
    decreases words.len(),
{
    if words.len() == 0 {
        Ok(Seq::empty())
    } else {
        match modifiers_named(words.drop_last()) {
            Ok(before) => match modifier_named(words.last()) {
                Some(m) => Ok(before.push(m)),
                None => Err(HotkeyFault::UnknownModifier(text::lower(words.last()))),
            },
            Err(fault) => Err(fault),
        }
    }
}

/// An ASCII letter or digit.
pub open spec fn letter_or_digit(c: char) -> bool {
    'a' <= c <= 'z' || 'A' <= c <= 'Z' || '0' <= c <= '9'
}

/// `F` followed by a number from 1 to 12.
pub open spec fn function_key(name: Seq<char>) -> bool {
    name.len() > 0 && name[0] == 'F' && (text::number(name.skip(1)) matches Some(n) && 1 <= n <= 12)
}

/// A key that goes by a word of its own.
pub open spec fn word_key(name: Seq<char>) -> bool {
    ||| name == "PAUSE"@
    ||| name == "SCROLLLOCK"@
    ||| name == "INSERT"@
    ||| name == "DELETE"@
    ||| name == "HOME"@
    ||| name == "END"@
    ||| name == "PRIOR"@
    ||| name == "NEXT"@
    ||| name == "LEFT"@
    ||| name == "RIGHT"@
    ||| name == "UP"@
    ||| name == "DOWN"@
    ||| name == "SPACE"@
}

/// The name of the function key with number `n`.
pub open spec fn function_key_name(n: nat) -> Seq<char> {
    seq!['F'] + text::decimal(n)
}

/// The canonical name of the key that a word names, in any ASCII case. The number of a function
/// key may be written with zeros in front; its name has none.
pub open spec fn key_named(word: Seq<char>) -> Option<Seq<char>> {
    let u = text::upper(word);
    if u == "PRINTSCREEN"@ || u == "PRTSC"@ || u == "PRTSCN"@ {
        Some("PRINTSCREEN"@)
    } else if function_key(u) {
        Some(function_key_name(text::number(u.skip(1))->0))
    } else if (u.len() == 1 && letter_or_digit(u[0])) || word_key(u) {
        Some(u)
    } else {
        None
    }
}

/// What a hotkey string says: its modifiers in order and the name of its key.
pub open spec fn parsed_hotkey(s: Seq<char>) -> Result<(Seq<Modifier>, Seq<char>), HotkeyFault> {
    let words = pieces(s);
    if words.len() == 0 {
        Err(HotkeyFault::Empty)
    } else {
        match modifiers_named(words.drop_last()) {
            Err(fault) => Err(fault),
            Ok(modifiers) => match key_named(words.last()) {
                Some(name) => Ok((modifiers, name)),
                None => Err(HotkeyFault::UnsupportedKey(words.last())),
            },
        }
    }
}

/// The words of `chars`; see `pieces`.
fn split_pieces(chars: &[char]) -> (res: Vec<Vec<char>>)
    ensures
        res@.map_values(|w: Vec<char>| w@) == pieces(chars@),
{
    let mut res: Vec<Vec<char>> = Vec::new();
    let mut from: usize = 0;
    let mut done: bool = false;
    let ghost view = |w: Vec<char>| w@;
    proof {
        assert(chars@.skip(0) == chars@);
        assert(res@.map_values(view) + pieces(chars@) == pieces(chars@));
    }
    while !done
        invariant
            from <= chars@.len(),
            view == (|w: Vec<char>| w@),
            !done ==> res@.map_values(view) + pieces(chars@.skip(from as int)) == pieces(chars@),
            done ==> res@.map_values(view) == pieces(chars@),
        decreases chars@.len() - from + (if done { 0int } else { 1int }),
    {
        let ghost before = res@;
        let ghost tail = chars@.skip(from as int);
        let at = text::find_from(chars, '+', from);
        let segment = text::copy_range(chars, from, at);
        let word = text::trimmed(segment.as_slice());
        proof {
            assert(segment@ == tail.take(at - from));
            if at < chars@.len() {
                assert(tail.skip(at - from + 1) == chars@.skip(at + 1));
            }
        }
        if word.len() > 0 {
            res.push(word);
            assert(res@.map_values(view) == before.map_values(view).push(word@));
        }
        proof {
            if at < chars@.len() {
                assert(res@.map_values(view) + pieces(chars@.skip(at + 1))
                    == before.map_values(view) + pieces(tail));
            } else {
                assert(res@.map_values(view) == before.map_values(view) + pieces(tail));
            }
        }
        if at < chars.len() {
            from = at + 1;
        } else {
            done = true;
        }
    }
    res
}

/// The modifier that `word` names; see `modifier_named`.
fn parse_modifier(word: &[char]) -> (res: Option<Modifier>)
    ensures
        res == modifier_named(word@),
{
    let small = text::to_lower(word);
    let w = text::string_of(small.as_slice());
    let w = w.as_str();
    if text::same_text(w, "ctrl") || text::same_text(w, "control") {
        Some(Modifier::Ctrl)
    } else if text::same_text(w, "alt") {
        Some(Modifier::Alt)
    } else if text::same_text(w, "shift") {
        Some(Modifier::Shift)
    } else if text::same_text(w, "win") || text::same_text(w, "super") || text::same_text(
        w,
        "meta",
    ) {
        Some(Modifier::Win)
    } else {
        None
    }
}

/// The number of the function key that `name` stands for, none where it stands for none.
fn function_key_number(name: &[char]) -> (res: Option<u64>)
    ensures
        res is Some <==> function_key(name@),
        res matches Some(n) ==> text::number(name@.skip(1)) == Some(n as nat),
{
    let len: usize = name.len();
    if len < 2 || name[0] != 'F' {
        assert(len == 1 ==> name@.skip(1).len() == 0);
        return None;
    }
    let ghost digits = name@.skip(1);
    // Anything past 12 is as good as 13.
    let mut value: u64 = 0;
    let mut i: usize = 1;
    while i < len
        invariant
            1 <= i <= len == name@.len(),
            digits == name@.skip(1),
            value <= 13,
            i == 1 ==> value == 0,
            i > 1 ==> (text::number(digits.take(i - 1)) matches Some(n) && value == (if n > 13 {
                13
            } else {
                n as int
            })),
        decreases len - i,
    {
        let c = name[i];
        let ghost part = digits.take(i as int);
        proof {
            assert(part.last() == c);
            assert(part.drop_last() == digits.take(i - 1));
        }
        if !('0' <= c && c <= '9') {
            proof {
                text::number_needs_digits(digits, i - 1);
            }
            return None;
        }
        let d: u64 = c as u64 - '0' as u64;
        value = if value * 10 + d > 13 {
            13
        } else {
            value * 10 + d
        };
        i += 1;
    }
    assert(digits.take(len - 1) == digits);
    if 1 <= value && value <= 12 {
        Some(value)
    } else {
        None
    }
}

/// The canonical name of the key that `word` names; see `key_named`.
fn normalize_key_name(word: &[char]) -> (res: Option<String>)
    ensures
        match res {
            Some(name) => key_named(word@) == Some(name@),
            None => key_named(word@) is None,
        },
{
    let capitals = text::to_upper(word);
    let name = text::string_of(capitals.as_slice());
    let u = name.as_str();
    if text::same_text(u, "PRINTSCREEN") || text::same_text(u, "PRTSC") || text::same_text(
        u,
        "PRTSCN",
    ) {
        return Some("PRINTSCREEN".to_owned());
    }
    if let Some(n) = function_key_number(capitals.as_slice()) {
        let number = text::decimal_text(n as u128);
        let res = "F".to_owned().concat(number.as_str());
        proof {
            reveal_strlit("F");
            assert(res@ == function_key_name(n as nat));
        }
        return Some(res);
    }
    if capitals.len() == 1 {
        let c = capitals[0];
        if ('a' <= c && c <= 'z') || ('A' <= c && c <= 'Z') || ('0' <= c && c <= '9') {
            return Some(name);
        }
    }
    if text::same_text(u, "PAUSE") || text::same_text(u, "SCROLLLOCK") || text::same_text(u, "INSERT") || text::same_text(u, "DELETE") || text::same_text(u, "HOME")
        || text::same_text(u, "END") || text::same_text(u, "PRIOR") || text::same_text(u, "NEXT")
        || text::same_text(u, "LEFT") || text::same_text(u, "RIGHT") || text::same_text(u, "UP")
        || text::same_text(u, "DOWN") || text::same_text(u, "SPACE") {
        return Some(name);
    }
    None
}

/// Parses a hotkey string such as `F8`, `Ctrl+F8` or `PrintScreen`.
pub fn parse_hotkey(s: &str) -> (res: Result<HotkeySpec, HotkeyError>)
    ensures
        match parsed_hotkey(s@) {
            Ok((modifiers, name)) => res matches Ok(spec) && spec.modifiers@ == modifiers
                && spec.vk_name@ == name,
            Err(fault) => res matches Err(error) && error@ == fault,
        },
{
    let chars = text::chars_of(s);
    let words = split_pieces(chars.as_slice());
    let ghost view = |w: Vec<char>| w@;
    let ghost all = words@.map_values(view);
    let count: usize = words.len();
    if count == 0 {
        return Err(HotkeyError::Empty);
    }
    let mut modifiers: Vec<Modifier> = Vec::new();
    let mut i: usize = 0;
    let ghost heads = all.drop_last();
    while i < count - 1
        invariant
            i <= count - 1,
            count == words@.len() == all.len(),
            view == (|w: Vec<char>| w@),
            all == words@.map_values(view),
            all == pieces(s@),
            heads == all.drop_last(),
            modifiers_named(heads.take(i as int)) == Ok::<Seq<Modifier>, HotkeyFault>(modifiers@),
        decreases count - i,
    {
        let ghost part = heads.take(i + 1);
        proof {
            assert(part.drop_last() == heads.take(i as int));
            assert(part.last() == words@[i as int]@);
        }
        match parse_modifier(words[i].as_slice()) {
            Some(m) => {
                modifiers.push(m);
            },
            None => {
                let small = text::to_lower(words[i].as_slice());
                proof {
                    modifiers_fault_stays(heads, i + 1);
                }
                return Err(HotkeyError::UnknownModifier(text::string_of(small.as_slice())));
            },
        }
        i += 1;
    }
    assert(heads.take(count - 1) == heads);
    match normalize_key_name(words[count - 1].as_slice()) {
        Some(vk_name) => Ok(HotkeySpec { modifiers, vk_name }),
        None => Err(HotkeyError::UnsupportedKey(text::string_of(words[count - 1].as_slice()))),
    }
}

/// The first word that names no modifier decides, whatever follows it.
proof fn modifiers_fault_stays(words: Seq<Seq<char>>, n: int)
    requires
        0 <= n <= words.len(),
        modifiers_named(words.take(n)) is Err,
    ensures
        modifiers_named(words) == modifiers_named(words.take(n)),
    decreases words.len(),
{
    if n == words.len() {
        assert(words.take(n) == words);
    } else {
        assert(words.drop_last().take(n) == words.take(n));
        modifiers_fault_stays(words.drop_last(), n);
    }
}

impl HotkeyError {
    /// What the error says in words.
    pub open spec fn words(self) -> Seq<char> {
        match self@ {
            HotkeyFault::Empty => "empty hotkey"@,
            HotkeyFault::UnknownModifier(w) => "unknown modifier: "@ + w,
            HotkeyFault::UnsupportedKey(w) => "unsupported key: "@ + w,
        }
    }

    /// The error in words, for a log.
    pub fn message(&self) -> (res: String)
        ensures
            res@ == self.words(),
            match self {
                HotkeyError::Empty => res@ == "empty hotkey"@,
                HotkeyError::UnknownModifier(w) => res@ == "unknown modifier: "@ + w@,
                HotkeyError::UnsupportedKey(w) => res@ == "unsupported key: "@ + w@,
            },
    {
        match self {
            HotkeyError::Empty => "empty hotkey".to_owned(),
            HotkeyError::UnknownModifier(w) => "unknown modifier: ".to_owned().concat(w.as_str()),
            HotkeyError::UnsupportedKey(w) => "unsupported key: ".to_owned().concat(w.as_str()),
        }
    }
}

/// Whether two lists hold the same modifiers, in whatever order and however often each.
pub open spec fn same_modifiers(a: Seq<Modifier>, b: Seq<Modifier>) -> bool {
    forall|m: Modifier| a.contains(m) == b.contains(m)
}

/// Whether `modifiers` holds `wanted`.
pub fn has_modifier(modifiers: &[Modifier], wanted: Modifier) -> (res: bool)
    ensures
        res == modifiers@.contains(wanted),
{
    let mut i: usize = 0;
    while i < modifiers.len()
        invariant
            i <= modifiers@.len(),
            forall|k: int| 0 <= k < i ==> modifiers@[k] != wanted,
        decreases modifiers@.len() - i,
    {
        if modifiers[i] == wanted {
            return true;
        }
        i += 1;
    }
    false
}

impl HotkeySpec {
    /// Whether two hotkeys are one and the same: the same key with the same modifiers held, in
    /// whatever order they are listed and however often.
    pub fn same_as(&self, other: &HotkeySpec) -> (res: bool)
        ensures
            res == (self.vk_name@ == other.vk_name@ && forall|m: Modifier|
                self.modifiers@.contains(m) == other.modifiers@.contains(m)),
    {
        let mine = self.modifiers.as_slice();
        let theirs = other.modifiers.as_slice();
        let same: bool = has_modifier(mine, Modifier::Ctrl) == has_modifier(theirs, Modifier::Ctrl)
            && has_modifier(mine, Modifier::Alt) == has_modifier(theirs, Modifier::Alt)
            && has_modifier(mine, Modifier::Shift) == has_modifier(theirs, Modifier::Shift)
            && has_modifier(mine, Modifier::Win) == has_modifier(theirs, Modifier::Win);
        proof {
            if same {
                assert forall|m: Modifier|
                    self.modifiers@.contains(m) == other.modifiers@.contains(m) by {
                    match m {
                        Modifier::Ctrl => {},
                        Modifier::Alt => {},
                        Modifier::Shift => {},
                        Modifier::Win => {},
                    }
                }
            }
        }
        same && self.vk_name == other.vk_name
    }
}

proof fn upper_keeps_trim(s: Seq<char>)
    ensures
        text::trim(text::upper(s)) == text::upper(text::trim(s)),
{
    upper_keeps_trim_start(s);
    upper_keeps_trim_end(text::trim_start(s));
}

proof fn upper_keeps_trim_start(s: Seq<char>)
    ensures
        text::trim_start(text::upper(s)) == text::upper(text::trim_start(s)),
    decreases s.len(),
{
    if s.len() > 0 && text::white_space(s[0]) {
        upper_keeps_trim_start(s.drop_first());
        assert(text::upper(s).drop_first() == text::upper(s.drop_first()));
    }
}

proof fn upper_keeps_trim_end(s: Seq<char>)
    ensures
        text::trim_end(text::upper(s)) == text::upper(text::trim_end(s)),
    decreases s.len(),
{
    if s.len() > 0 && text::white_space(s.last()) {
        upper_keeps_trim_end(s.drop_last());
        assert(text::upper(s).drop_last() == text::upper(s.drop_last()));
    }
}

proof fn upper_keeps_plus(s: Seq<char>)
    ensures
        text::first_index(text::upper(s), '+') == text::first_index(s, '+'),
    decreases s.len(),
{
    if s.len() > 0 && s[0] != '+' {
        upper_keeps_plus(s.drop_first());
        assert(text::upper(s).drop_first() == text::upper(s.drop_first()));
    }
}

proof fn upper_keeps_pieces(s: Seq<char>)
    ensures
        pieces(text::upper(s)) == pieces(s).map_values(|w: Seq<char>| text::upper(w)),
    decreases s.len(),
{
    let f = |w: Seq<char>| text::upper(w);
    let i = text::first_index(s, '+');
    text::first_index_is_first(s, '+');
    upper_keeps_plus(s);
    assert(text::upper(s).take(i) == text::upper(s.take(i)));
    upper_keeps_trim(s.take(i));
    let word = text::trim(s.take(i));
    if i < s.len() {
        upper_keeps_pieces(s.skip(i + 1));
        assert(text::upper(s).skip(i + 1) == text::upper(s.skip(i + 1)));
        let rest = pieces(s.skip(i + 1));
        assert((seq![word] + rest).map_values(f) == seq![text::upper(word)] + rest.map_values(f));
    } else {
        let none = Seq::<Seq<char>>::empty();
        assert(none.map_values(f) == none);
        assert((seq![word] + none).map_values(f) == seq![text::upper(word)] + none);
    }
}

proof fn same_capitals_same_modifiers(a: Seq<Seq<char>>, b: Seq<Seq<char>>)
    requires
        a.len() == b.len(),
        forall|i: int| 0 <= i < a.len() ==> text::upper(a[i]) == text::upper(b[i]),
    ensures
        modifiers_named(a) == modifiers_named(b),
    decreases a.len(),
{
    if a.len() > 0 {
        same_capitals_same_modifiers(a.drop_last(), b.drop_last());
        same_capitals_same_small(a.last(), b.last());
    }
}

proof fn same_capitals_same_small(a: Seq<char>, b: Seq<char>)
    requires
        text::upper(a) == text::upper(b),
    ensures
        text::lower(a) == text::lower(b),
{
    assert(text::upper(a).len() == a.len() && text::upper(b).len() == b.len());
    assert(a.len() == b.len());
    assert forall|i: int| 0 <= i < a.len() implies text::lower_char(a[i]) == text::lower_char(
        b[i],
    ) by {
        assert(text::upper(a)[i] == text::upper_char(a[i]));
        assert(text::upper(b)[i] == text::upper_char(b[i]));
        small_of_capital(a[i]);
        small_of_capital(b[i]);
    }
    assert(text::lower(a) == text::lower(b));
}

proof fn small_of_capital(c: char)
    ensures
        text::lower_char(text::upper_char(c)) == text::lower_char(c),
{
    if 'a' <= c <= 'z' {
        assert('A' <= text::upper_char(c) <= 'Z');
    }
}

/// Hotkey strings are case-insensitive: two that differ only in ASCII case name the same
/// modifiers and key, or are refused for the same reason.
pub proof fn hotkeys_ignore_case(s: Seq<char>, t: Seq<char>)
    requires
        text::upper(s) == text::upper(t),
    ensures
        match (parsed_hotkey(s), parsed_hotkey(t)) {
            (Ok(a), Ok(b)) => a == b,
            (Err(HotkeyFault::UnsupportedKey(a)), Err(HotkeyFault::UnsupportedKey(b))) =>
                text::upper(a) == text::upper(b),
            (Err(a), Err(b)) => a == b,
            _ => false,
        },
{
    let f = |w: Seq<char>| text::upper(w);
    let a = pieces(s);
    let b = pieces(t);
    upper_keeps_pieces(s);
    upper_keeps_pieces(t);
    assert(a.len() == a.map_values(f).len() == b.map_values(f).len() == b.len());
    assert forall|i: int| 0 <= i < a.len() implies text::upper(a[i]) == text::upper(b[i]) by {
        assert(a.map_values(f)[i] == b.map_values(f)[i]);
    }
    if a.len() > 0 {
        same_capitals_same_modifiers(a.drop_last(), b.drop_last());
    }
}

proof fn modifiers_from_the_front(word: Seq<char>, words: Seq<Seq<char>>, m: Modifier)
    requires
        modifier_named(word) == Some(m),
    ensures
        modifiers_named(seq![word] + words) == (match modifiers_named(words) {
            Ok(ms) => Ok(seq![m] + ms),
            Err(fault) => Err(fault),
        }),
    decreases words.len(),
{
    let all = seq![word] + words;
    if words.len() == 0 {
        assert(all.drop_last() == Seq::<Seq<char>>::empty());
        assert(all.last() == word);
        assert(words == Seq::<Seq<char>>::empty());
        reveal_with_fuel(modifiers_named, 2);
        assert(Seq::<Modifier>::empty().push(m) == seq![m] + Seq::<Modifier>::empty());
    } else {
        modifiers_from_the_front(word, words.drop_last(), m);
        assert(all.drop_last() == seq![word] + words.drop_last());
        assert(all.last() == words.last());
        if let Ok(ms) = modifiers_named(words.drop_last()) {
            if let Some(last) = modifier_named(words.last()) {
                assert((seq![m] + ms).push(last) == seq![m] + ms.push(last));
            }
        }
    }
}

/// Modifiers are joined to a hotkey with `+`: one more word that names a modifier, put in front,
/// adds that modifier and changes nothing else.
pub proof fn plus_joins_a_modifier(word: Seq<char>, s: Seq<char>, m: Modifier)
    requires
        !word.contains('+'),
        modifier_named(text::trim(word)) == Some(m),
    ensures
        match parsed_hotkey(s) {
            Ok((modifiers, name)) => parsed_hotkey(word + seq!['+'] + s) == Ok::<
                (Seq<Modifier>, Seq<char>),
                HotkeyFault,
            >((seq![m] + modifiers, name)),
            Err(HotkeyFault::Empty) => parsed_hotkey(word + seq!['+'] + s) is Err,
            Err(fault) => parsed_hotkey(word + seq!['+'] + s) == Err::<
                (Seq<Modifier>, Seq<char>),
                HotkeyFault,
            >(fault),
        },
{
    let all = word + seq!['+'] + s;
    let n = word.len() as int;
    let i = text::first_index(all, '+');
    text::first_index_is_first(all, '+');
    assert(all[n] == '+');
    if i < n {
        assert(all[i] == word[i]);
        assert(word.contains('+'));
    }
    assert(all.take(n) == word);
    assert(all.skip(n + 1) == s);
    let w = text::trim(word);
    reveal_strlit("ctrl");
    reveal_strlit("control");
    reveal_strlit("alt");
    reveal_strlit("shift");
    reveal_strlit("win");
    reveal_strlit("super");
    reveal_strlit("meta");
    assert(text::lower(w).len() == w.len());
    let words = pieces(s);
    assert(pieces(all) == seq![w] + words);
    if words.len() == 0 {
        assert(pieces(all).drop_last() == Seq::<Seq<char>>::empty());
        modifier_words_are_no_keys(w);
    } else {
        assert(pieces(all).drop_last() == seq![w] + words.drop_last());
        modifiers_from_the_front(w, words.drop_last(), m);
    }
}

/// No word names both a modifier and a key.
pub proof fn modifier_words_are_no_keys(word: Seq<char>)
    requires
        modifier_named(word) is Some,
    ensures
        key_named(word) is None,
{
    let l = text::lower(word);
    let u = text::upper(word);
    reveal_strlit("ctrl");
    reveal_strlit("control");
    reveal_strlit("alt");
    reveal_strlit("shift");
    reveal_strlit("win");
    reveal_strlit("super");
    reveal_strlit("meta");
    reveal_strlit("PRINTSCREEN");
    reveal_strlit("PRTSC");
    reveal_strlit("PRTSCN");
    reveal_strlit("PAUSE");
    reveal_strlit("SCROLLLOCK");
    reveal_strlit("INSERT");
    reveal_strlit("DELETE");
    reveal_strlit("HOME");
    reveal_strlit("END");
    reveal_strlit("PRIOR");
    reveal_strlit("NEXT");
    reveal_strlit("LEFT");
    reveal_strlit("RIGHT");
    reveal_strlit("UP");
    reveal_strlit("DOWN");
    reveal_strlit("SPACE");
    assert(u.len() == l.len() == word.len());
    assert(l[0] == text::lower_char(word[0]));
    assert(l[1] == text::lower_char(word[1]));
    assert(u[0] == text::upper_char(word[0]));
    assert(u[1] == text::upper_char(word[1]));
}

/// Key names are canonical: the name of a key names that key again.
pub proof fn key_names_are_canonical(word: Seq<char>)
    ensures
        key_named(word) matches Some(name) ==> key_named(name) == Some(name),
{
    reveal_strlit("PRINTSCREEN");
    let u = text::upper(word);
    assert(text::upper(u) == u);
    assert(text::upper("PRINTSCREEN"@) == "PRINTSCREEN"@);
    if function_key(u) {
        function_key_names_themselves(text::number(u.skip(1))->0);
    }
}

/// Key names hold no small letters.
pub proof fn key_names_are_capitals(word: Seq<char>)
    ensures
        key_named(word) matches Some(name) ==> text::upper(name) == name,
{
    reveal_strlit("PRINTSCREEN");
    let u = text::upper(word);
    assert(text::upper(u) == u);
    assert(text::upper("PRINTSCREEN"@) == "PRINTSCREEN"@);
    if function_key(u) {
        let n = text::number(u.skip(1))->0;
        reveal_with_fuel(text::decimal, 2);
        assert(text::upper(function_key_name(n)) == function_key_name(n));
    }
}

/// The name of a function key names that key.
proof fn function_key_names_themselves(n: nat)
    requires
        1 <= n <= 12,
    ensures
        function_key_name(n).len() >= 2,
        forall|i: int|
            0 <= i < function_key_name(n).len() ==> letter_or_digit(
                #[trigger] function_key_name(n)[i],
            ),
        key_named(function_key_name(n)) == Some(function_key_name(n)),
{
    reveal_with_fuel(text::decimal, 2);
    reveal_strlit("PRINTSCREEN");
    reveal_strlit("PRTSC");
    reveal_strlit("PRTSCN");
    let s = function_key_name(n);
    text::padded_spells_its_number(n, 0);
    assert(s.skip(1) == text::decimal(n));
    assert(text::upper(s) == s);
    assert(s[0] == 'F');
}

/// A single letter or digit is a hotkey of its own, named by its capital.
pub proof fn letters_and_digits_are_hotkeys(c: char)
    requires
        letter_or_digit(c),
    ensures
        parsed_hotkey(seq![c]) == Ok::<(Seq<Modifier>, Seq<char>), HotkeyFault>(
            (Seq::empty(), seq![text::upper_char(c)]),
        ),
{
    let s = seq![c];
    only_word(s);
    reveal_strlit("PRINTSCREEN");
    reveal_strlit("PRTSC");
    reveal_strlit("PRTSCN");
    assert(text::upper(s) == seq![text::upper_char(c)]);
}

/// `F1` to `F12` are hotkeys of their own.
pub proof fn function_keys_are_hotkeys(n: nat)
    requires
        1 <= n <= 12,
    ensures
        parsed_hotkey(function_key_name(n)) == Ok::<(Seq<Modifier>, Seq<char>), HotkeyFault>(
            (Seq::empty(), function_key_name(n)),
        ),
{
    function_key_names_themselves(n);
    only_word(function_key_name(n));
}

proof fn only_word(s: Seq<char>)
    requires
        s.len() > 0,
        forall|i: int| 0 <= i < s.len() ==> letter_or_digit(s[i]),
    ensures
        pieces(s) == seq![s],
        pieces(s).drop_last() == Seq::<Seq<char>>::empty(),
{
    text::first_index_is_first(s, '+');
    assert(s.take(s.len() as int) == s);
    assert(seq![s] + Seq::<Seq<char>>::empty() == seq![s]);
}

/// The words of two texts joined with `+` are those of the first, then those of the second.
pub proof fn plus_separates_words(a: Seq<char>, b: Seq<char>)
    ensures
        pieces(a + seq!['+'] + b) == pieces(a) + pieces(b),
    decreases a.len(),
{
    let all = a + seq!['+'] + b;
    let n = a.len() as int;
    let i = text::first_index(a, '+');
    let j = text::first_index(all, '+');
    text::first_index_is_first(a, '+');
    text::first_index_is_first(all, '+');
    assert(all[n] == '+');
    assert(forall|k: int| 0 <= k < n ==> all[k] == a[k]);
    if i < n {
        assert(all[i] == '+');
        assert(i == j);
        assert(all.take(i) == a.take(i));
        assert(all.skip(i + 1) == a.skip(i + 1) + seq!['+'] + b);
        plus_separates_words(a.skip(i + 1), b);
        let word = text::trim(a.take(i));
        let rest = pieces(a.skip(i + 1));
        assert((seq![word] + rest) + pieces(b) == seq![word] + (rest + pieces(b)));
    } else {
        if j < n {
            assert(a[j] == '+');
        }
        assert(j == n);
        assert(all.take(n) == a.take(n));
        assert(a.take(n) == a);
        assert(all.skip(n + 1) == b);
        let none = Seq::<Seq<char>>::empty();
        let word = text::trim(a);
        assert(none + pieces(b) == pieces(b));
        assert((seq![word] + none) + pieces(b) == seq![word] + pieces(b));
    }
}

/// Text without a `+` is one word, trimmed, or none where nothing is left of it.
pub proof fn text_without_plus_is_one_word(s: Seq<char>)
    requires
        !s.contains('+'),
    ensures
        pieces(s) == (if text::trim(s).len() > 0 {
            seq![text::trim(s)]
        } else {
            Seq::empty()
        }),
{
    text::first_index_is_first(s, '+');
    let i = text::first_index(s, '+');
    if i < s.len() {
        assert(s.contains(s[i]));
    }
    assert(s.take(s.len() as int) == s);
    assert(seq![text::trim(s)] + Seq::<Seq<char>>::empty() == seq![text::trim(s)]);
}

/// Modifiers are read word by word, in order; the first word that names none is the one that is
/// refused, in small letters.
pub proof fn modifiers_are_read_in_order(words: Seq<Seq<char>>)
    ensures
        match modifiers_named(words) {
            Ok(ms) => ms.len() == words.len() && forall|i: int|
                0 <= i < words.len() ==> modifier_named(#[trigger] words[i]) == Some(ms[i]),
            Err(fault) => exists|i: int|
                0 <= i < words.len() && modifier_named(#[trigger] words[i]) is None && fault
                    == HotkeyFault::UnknownModifier(text::lower(words[i])) && forall|k: int|
                    0 <= k < i ==> modifier_named(#[trigger] words[k]) is Some,
        },
    decreases words.len(),
{
    if words.len() > 0 {
        let before = words.drop_last();
        let n = before.len() as int;
        modifiers_are_read_in_order(before);
        assert(words.last() == words[n]);
        assert(forall|k: int| 0 <= k < n ==> before[k] == words[k]);
        match modifiers_named(before) {
            Ok(ms) => {
                match modifier_named(words.last()) {
                    Some(m) => {
                        assert forall|i: int| 0 <= i < words.len() implies modifier_named(
                            #[trigger] words[i],
                        ) == Some(ms.push(m)[i]) by {
                            if i < n {
                                assert(words[i] == before[i]);
                            }
                        }
                    },
                    None => {
                        assert forall|k: int| 0 <= k < n implies modifier_named(
                            #[trigger] words[k],
                        ) is Some by {
                            assert(words[k] == before[k]);
                        }
                        assert(modifier_named(words[n]) is None);
                    },
                }
            },
            Err(fault) => {
                let i = choose|i: int|
                    0 <= i < before.len() && modifier_named(#[trigger] before[i]) is None && fault
                        == HotkeyFault::UnknownModifier(text::lower(before[i])) && forall|k: int|
                        0 <= k < i ==> modifier_named(#[trigger] before[k]) is Some;
                assert(words[i] == before[i]);
                assert forall|k: int| 0 <= k < i implies modifier_named(
                    #[trigger] words[k],
                ) is Some by {
                    assert(words[k] == before[k]);
                }
            },
        }
    }
}

/// Seven words name modifiers, in any ASCII case, and no others do.
pub proof fn seven_words_name_modifiers(word: Seq<char>)
    ensures
        ({
            let w = text::lower(word);
            let m = modifier_named(word);
            &&& m == Some(Modifier::Ctrl) <==> w == "ctrl"@ || w == "control"@
            &&& m == Some(Modifier::Alt) <==> w == "alt"@
            &&& m == Some(Modifier::Shift) <==> w == "shift"@
            &&& m == Some(Modifier::Win) <==> w == "win"@ || w == "super"@ || w == "meta"@
        }),
{
    reveal_strlit("ctrl");
    reveal_strlit("control");
    reveal_strlit("alt");
    reveal_strlit("shift");
    reveal_strlit("win");
    reveal_strlit("super");
    reveal_strlit("meta");
    assert("ctrl"@[0] == 'c' && "control"@[0] == 'c' && "alt"@[0] == 'a' && "shift"@[0] == 's'
        && "shift"@[1] == 'h' && "win"@[0] == 'w' && "super"@[0] == 's' && "super"@[1] == 'u'
        && "meta"@[0] == 'm');
}

/// The keys: letters and digits, `F1` to `F12`, print screen under three names, and thirteen more
/// words; each goes by its capitals, and nothing else is a key.
pub proof fn keys_are_these(word: Seq<char>)
    ensures
        ({
            let u = text::upper(word);
            let digit_run = u.len() > 0 && u[0] == 'F' && text::number(u.skip(1)) is Some;
            let n = text::number(u.skip(1))->0;
            if u == "PRINTSCREEN"@ || u == "PRTSC"@ || u == "PRTSCN"@ {
                key_named(word) == Some("PRINTSCREEN"@)
            } else if digit_run {
                key_named(word) == (if 1 <= n <= 12 {
                    Some(seq!['F'] + text::decimal(n))
                } else {
                    None
                })
            } else if (u.len() == 1 && (48 <= u[0] as int <= 57 || 65 <= u[0] as int <= 90)) || u
                == "PAUSE"@ || u == "SCROLLLOCK"@ || u == "INSERT"@ || u == "DELETE"@ || u
                == "HOME"@ || u == "END"@ || u == "PRIOR"@ || u == "NEXT"@ || u == "LEFT"@ || u
                == "RIGHT"@ || u == "UP"@ || u == "DOWN"@ || u == "SPACE"@ {
                key_named(word) == Some(u)
            } else {
                key_named(word) is None
            }
        }),
{
    let u = text::upper(word);
    if u.len() == 1 {
        text::case_moves_ascii_letters_only(word, 0);
        assert(u.skip(1).len() == 0);
    }
    if u.len() > 0 && u[0] == 'F' && text::number(u.skip(1)) is Some {
        reveal_strlit("PAUSE");
        reveal_strlit("SCROLLLOCK");
        reveal_strlit("INSERT");
        reveal_strlit("DELETE");
        reveal_strlit("HOME");
        reveal_strlit("END");
        reveal_strlit("PRIOR");
        reveal_strlit("NEXT");
        reveal_strlit("LEFT");
        reveal_strlit("RIGHT");
        reveal_strlit("UP");
        reveal_strlit("DOWN");
        reveal_strlit("SPACE");
    }
}

/// A hotkey is any number of modifier words and then a key word: where each word before the last
/// names a modifier and the last names a key, the string stands for these modifiers, in order, and
/// that key.
pub proof fn modifiers_then_a_key_is_a_hotkey(s: Seq<char>, ms: Seq<Modifier>, name: Seq<char>)
    requires
        pieces(s).len() == ms.len() + 1,
        forall|i: int|
            0 <= i < ms.len() ==> modifier_named(#[trigger] pieces(s)[i]) == Some(ms[i]),
        key_named(pieces(s).last()) == Some(name),
    ensures
        parsed_hotkey(s) == Ok::<(Seq<Modifier>, Seq<char>), HotkeyFault>((ms, name)),
{
    let words = pieces(s);
    let heads = words.drop_last();
    modifiers_are_read_in_order(heads);
    assert(forall|i: int| 0 <= i < heads.len() ==> heads[i] == words[i]);
    match modifiers_named(heads) {
        Ok(found) => {
            assert forall|i: int| 0 <= i < ms.len() implies found[i] == ms[i] by {
                assert(modifier_named(heads[i]) == Some(found[i]));
                assert(heads[i] == words[i]);
            }
            assert(found == ms);
        },
        Err(_) => {
            let i = choose|i: int|
                0 <= i < heads.len() && modifier_named(#[trigger] heads[i]) is None;
            assert(heads[i] == words[i]);
            assert(modifier_named(words[i]) == Some(ms[i]));
        },
    }
}

/// What is refused, and why: a string without words; the first word before the last that names no
/// modifier; then a last word that names no key, as it is written.
pub proof fn refusals_say_what_is_wrong(s: Seq<char>)
    ensures
        pieces(s).len() == 0 <==> parsed_hotkey(s) == Err::<
            (Seq<Modifier>, Seq<char>),
            HotkeyFault,
        >(HotkeyFault::Empty),
        parsed_hotkey(s) matches Err(HotkeyFault::UnknownModifier(w)) ==> (exists|i: int|
            0 <= i < pieces(s).len() - 1 && modifier_named(#[trigger] pieces(s)[i]) is None && w
                == text::lower(pieces(s)[i])),
        parsed_hotkey(s) matches Err(HotkeyFault::UnsupportedKey(w)) ==> w == pieces(s).last()
            && key_named(w) is None,
        parsed_hotkey(s) matches Ok((ms, name)) ==> ms.len() + 1 == pieces(s).len() && key_named(
            pieces(s).last(),
        ) == Some(name) && forall|i: int|
            0 <= i < ms.len() ==> modifier_named(#[trigger] pieces(s)[i]) == Some(ms[i]),
{
    let words = pieces(s);
    if words.len() > 0 {
        let heads = words.drop_last();
        modifiers_are_read_in_order(heads);
        assert(forall|i: int| 0 <= i < heads.len() ==> heads[i] == words[i]);
        match modifiers_named(heads) {
            Ok(ms) => {
                assert forall|i: int| 0 <= i < ms.len() implies modifier_named(
                    #[trigger] words[i],
                ) == Some(ms[i]) by {
                    assert(modifier_named(heads[i]) == Some(ms[i]));
                }
            },
            Err(fault) => {
                let i = choose|i: int|
                    0 <= i < heads.len() && modifier_named(#[trigger] heads[i]) is None && fault
                        == HotkeyFault::UnknownModifier(text::lower(heads[i]));
                assert(heads[i] == words[i]);
                assert(modifier_named(words[i]) is None);
            },
        }
    }
}

/// An error says what it holds.
pub proof fn errors_say_what_they_hold(w: String)
    ensures
        HotkeyError::Empty@ == HotkeyFault::Empty,
        HotkeyError::UnknownModifier(w)@ == HotkeyFault::UnknownModifier(w@),
        HotkeyError::UnsupportedKey(w)@ == HotkeyFault::UnsupportedKey(w@),
{
}

} // verus!
