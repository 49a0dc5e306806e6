use vstd::prelude::*;

use crate::bundle::ParamValue;
use crate::catalog::Action;

verus! {

/// Which characters a text field accepts.
#[derive(Clone, Copy, Debug, PartialEq, Eq, Structural)]
pub enum InputType {
    Hex,
    Number,
    Text,
    All,
}

/// A key press, as the interface sees it; `NoKey` when none came.
#[derive(Clone, Copy, Debug, PartialEq, Eq, Structural)]
pub enum KeyEvent {
    NoKey,
    Up,
    Down,
    Left,
    Right,
    Enter,
    Esc,
    Backspace,
    Char(char),
}

pub open spec fn is_digit_spec(c: char) -> bool {
    '0' <= c <= '9'
}

pub open spec fn is_hex_digit_spec(c: char) -> bool {
    is_digit_spec(c) || ('a' <= c <= 'f') || ('A' <= c <= 'F')
}

/// An ASCII decimal digit.
pub fn is_digit(c: char) -> (r: bool)
    ensures
        r == is_digit_spec(c),
{
    '0' <= c && c <= '9'
}

/// An ASCII hexadecimal digit, either case.
pub fn is_hex_digit(c: char) -> (r: bool)
    ensures
        r == is_hex_digit_spec(c),
{
    is_digit(c) || ('a' <= c && c <= 'f') || ('A' <= c && c <= 'F')
}

/// Whether a field of the given type takes the character `c`.
pub open spec fn accepts(input_type: InputType, c: char) -> bool {
    match input_type {
        InputType::Hex => is_hex_digit_spec(c),
        InputType::Number => is_digit_spec(c),
        InputType::Text => true,
        InputType::All => false,
    }
}

/// The content of a field after a key press.
pub open spec fn input_after(value: Seq<char>, key_event: KeyEvent, input_type: InputType) -> Seq<
    char,
> {
    match key_event {
        KeyEvent::Char(c) => if accepts(input_type, c) {
            value.push(c)
        } else {
            value
        },
        KeyEvent::Backspace => if value.len() > 0 {
            value.drop_last()
        } else {
            value
        },
        _ => value,
    }
}

/// Edits a field: a character the field accepts is appended, backspace
/// removes the last character, other keys change nothing.
pub fn handle_input(value: &mut String, key_event: KeyEvent, input_type: &InputType)
    ensures
        final(value)@ == input_after(old(value)@, key_event, *input_type),
{
    match key_event {
        KeyEvent::Char(c) => match input_type {
            InputType::Hex => {
                if is_hex_digit(c) {
                    value.push(c);
                }
            },
            InputType::Number => {
                if is_digit(c) {
                    value.push(c);
                }
            },
            InputType::Text => {
                value.push(c);
            },
            InputType::All => {},
        },
        KeyEvent::Backspace => {
            let _ = value.pop();
        },
        _ => {},
    }
}

/// The selection after a key press in a list of `list_size` entries: down
/// and up move by one and wrap around; an empty list selects 0.
pub open spec fn navigate_spec(selected: nat, list_size: nat, event: KeyEvent) -> nat {
    if list_size == 0 {
        0
    } else {
        match event {
            KeyEvent::Down => (selected + 1) % list_size,
            KeyEvent::Up => ((selected + list_size - 1) as nat) % list_size,
            _ => selected,
        }
    }
}

/// Moves a list selection.
pub fn handle_navigate(selected: usize, list_size: usize, event: &KeyEvent) -> (r: usize)
    ensures
        r == navigate_spec(selected as nat, list_size as nat, *event),
{
    if list_size == 0 {
        return 0;
    }
    let s = selected % list_size;
    proof {
        let n = list_size as int;
        let x = selected as int;
        assert((x + 1) % n == ((x % n) + 1) % n) by {
            vstd::arithmetic::div_mod::lemma_add_mod_noop(x, 1, n);
            if n > 1 {
                vstd::arithmetic::div_mod::lemma_small_mod(1, n as nat);
            }
        }
        assert((x + n - 1) % n == ((x % n) + n - 1) % n) by {
            vstd::arithmetic::div_mod::lemma_add_mod_noop(x, n - 1, n);
            vstd::arithmetic::div_mod::lemma_small_mod((n - 1) as nat, n as nat);
        }
        if (x % n) + 1 < n {
            vstd::arithmetic::div_mod::lemma_small_mod(((x % n) + 1) as nat, n as nat);
        } else {
            vstd::arithmetic::div_mod::lemma_mod_self_0(n);
        }
        if x % n == 0 {
            vstd::arithmetic::div_mod::lemma_small_mod((n - 1) as nat, n as nat);
        } else {
            vstd::arithmetic::div_mod::lemma_mod_add_multiples_vanish((x % n) - 1, n);
            vstd::arithmetic::div_mod::lemma_small_mod(((x % n) - 1) as nat, n as nat);
        }
    }
    match event {
        KeyEvent::Down => if s + 1 == list_size {
            0
        } else {
            s + 1
        },
        KeyEvent::Up => if s == 0 {
            list_size - 1
        } else {
            s - 1
        },
        _ => selected,
    }
}

/// The value that an edit of `param` reaches: its `selected` item when it is
/// an array, `param` itself otherwise.
pub open spec fn slot_of(param: ParamValue, selected: int) -> ParamValue {
    match param {
        ParamValue::ValueArray(items) => items@[selected],
        _ => param,
    }
}

/// The edited value exists: an array has an item at `selected`.
pub open spec fn slot_in_range(param: ParamValue, selected: int) -> bool {
    param matches ParamValue::ValueArray(items) ==> 0 <= selected < items@.len()
}

/// `after` is `before` with its slot `selected` replaced by `value`.
pub open spec fn slot_replaced(
    before: ParamValue,
    after: ParamValue,
    selected: int,
    value: ParamValue,
) -> bool {
    match before {
        ParamValue::ValueArray(items) => after matches ParamValue::ValueArray(new_items)
            && new_items@ == items@.update(selected, value),
        _ => after == value,
    }
}

/// Replaces the slot `selected` of `param` with `value`.
pub fn assign_slot(param: &mut ParamValue, selected: usize, value: ParamValue)
    requires
        slot_in_range(*old(param), selected as int),
    ensures
        slot_replaced(*old(param), *final(param), selected as int, value),
{
    match param {
        ParamValue::ValueArray(items) => {
            items.set(selected, value);
        },
        _ => {
            *param = value;
        },
    }
}

/// `s` with a leading "0x", unless it already starts with one.
pub open spec fn hex_prefixed(s: Seq<char>) -> Seq<char> {
    if s.len() >= 2 && s[0] == '0' && s[1] == 'x' {
        s
    } else {
        seq!['0', 'x'] + s
    }
}

/// Puts "0x" in front of `content` unless it is already there.
pub fn ensure_hex_prefix(content: &mut String)
    ensures
        final(content)@ == hex_prefixed(old(content)@),
{
    let n = content.as_str().unicode_len();
    if n >= 2 && content.as_str().get_char(0) == '0' && content.as_str().get_char(1) == 'x' {
        return ;
    }
    let mut r = String::new();
    r.push('0');
    r.push('x');
    r.append(content.as_str());
    assert(r@ =~= hex_prefixed(old(content)@));
    *content = r;
}

/// The number that the decimal digits `s` write.
pub open spec fn digits_value(s: Seq<char>) -> nat
    decreases s.len(),
{
    if s.len() == 0 {
        0
    } else {
        digits_value(s.drop_last()) * 10 + ((s.last() as u32) - 48) as nat
    }
}

pub open spec fn all_digits(s: Seq<char>) -> bool {
    forall|i: int| 0 <= i < s.len() ==> is_digit_spec(#[trigger] s[i])
}

/// `s` without a leading '+', when something follows it.
pub open spec fn unsigned_part(s: Seq<char>) -> Seq<char> {
    if s.len() > 1 && s[0] == '+' {
        s.subrange(1, s.len() as int)
    } else {
        s
    }
}

/// The index that `s` writes, as `str::parse::<usize>` reads it, or 0 where
/// that parse fails: `s` is decimal digits, optionally after a '+', and the
/// number fits.
pub open spec fn parse_index_spec(s: Seq<char>) -> nat {
    let d = unsigned_part(s);
    if d.len() > 0 && all_digits(d) && digits_value(d) <= usize::MAX {
        digits_value(d)
    } else {
        0
    }
}

proof fn lemma_digits_value_step(s: Seq<char>, k: int)
    requires
        0 <= k < s.len(),
    ensures
        digits_value(s.subrange(0, k + 1)) == digits_value(s.subrange(0, k)) * 10 + ((s[k] as u32)
            - 48) as nat,
{
    assert(s.subrange(0, k + 1).drop_last() =~= s.subrange(0, k));
}

proof fn lemma_digits_value_prefix(s: Seq<char>, k: int)
    requires
        0 <= k <= s.len(),
        all_digits(s),
    ensures
        digits_value(s.subrange(0, k)) <= digits_value(s),
    decreases s.len(),
{
    if k < s.len() {
        let t = s.drop_last();
        assert(all_digits(t)) by {
            assert forall|i: int| 0 <= i < t.len() implies is_digit_spec(#[trigger] t[i]) by {
                assert(t[i] == s[i]);
            }
        }
        lemma_digits_value_prefix(t, k);
        assert(t.subrange(0, k) =~= s.subrange(0, k));
        assert(is_digit_spec(s.last()));
    } else {
        assert(s.subrange(0, k) =~= s);
    }
}

/// Reads an index typed by the user; 0 where it is not a number that fits.
pub fn parse_index(s: &str) -> (r: usize)
    ensures
        r == parse_index_spec(s@),
{
    let n = s.unicode_len();
    let mut start: usize = 0;
    if n > 1 && s.get_char(0) == '+' {
        start = 1;
    }
    let ghost d = unsigned_part(s@);
    assert(d =~= s@.subrange(start as int, n as int));
    if start >= n {
        return 0;
    }
    let mut acc: usize = 0;
    let mut i: usize = start;
    while i < n
        invariant
            start <= i <= n,
            n == s@.len(),
            start < n,
            d == s@.subrange(start as int, n as int),
            d == unsigned_part(s@),
            acc == digits_value(d.subrange(0, i - start)),
            all_digits(d.subrange(0, i - start)),
        decreases n - i,
    {
        let c = s.get_char(i);
        if !is_digit(c) {
            assert(d[i - start] == c);
            return 0;
        }
        let dv = (c as u32 - 48) as usize;
        proof {
            lemma_digits_value_step(d, (i - start) as int);
        }
        if acc > (usize::MAX - dv) / 10 {
            proof {
                let q = (usize::MAX - dv) as int / 10;
                assert(acc * 10 + dv > usize::MAX) by (nonlinear_arith)
                    requires
                        acc > q,
                        q == (usize::MAX - dv) as int / 10,
                        0 <= dv <= 9,
                ;
                if all_digits(d) {
                    lemma_digits_value_prefix(d, (i - start + 1) as int);
                }
            }
            return 0;
        }
        proof {
            let q = (usize::MAX - dv) as int / 10;
            assert(acc * 10 + dv <= usize::MAX) by (nonlinear_arith)
                requires
                    acc <= q,
                    q == (usize::MAX - dv) as int / 10,
                    0 <= dv <= 9,
            ;
            assert(all_digits(d.subrange(0, i - start + 1))) by {
                assert forall|j: int| 0 <= j < i - start + 1 implies is_digit_spec(
                    #[trigger] d.subrange(0, i - start + 1)[j],
                ) by {
                    if j < i - start {
                        assert(d.subrange(0, i - start + 1)[j] == d.subrange(0, i - start)[j]);
                    }
                }
            }
        }
        acc = acc * 10 + dv;
        i += 1;
    }
    assert(d.subrange(0, n - start) =~= d);
    acc
}

/// `after` is `before` with its slot `selected` replaced by a literal whose
/// text is `text`.
pub open spec fn slot_replaced_by_text(
    before: ParamValue,
    after: ParamValue,
    selected: int,
    text: Seq<char>,
) -> bool {
    match before {
        ParamValue::ValueArray(items) => after matches ParamValue::ValueArray(new_items)
            && new_items@.len() == items@.len() && (forall|j: int|
            0 <= j < items@.len() && j != selected ==> #[trigger] new_items@[j] == items@[j])
            && (new_items@[selected] matches ParamValue::Value(s) && s@ == text),
        _ => after matches ParamValue::Value(s) && s@ == text,
    }
}

/// Commits the typed `content` to the edited slot of `param`: a reference to
/// an output takes `content` as its index (0 when it is no number that
/// fits), a literal takes `content` itself, after a leading "0x" is added in
/// a hex field; other values stay as they are.
pub fn apply_entry(
    param: &mut ParamValue,
    selected: usize,
    content: &mut String,
    input_type: InputType,
)
    requires
        slot_in_range(*old(param), selected as int),
    ensures
        slot_of(*old(param), selected as int) is Transaction ==> *final(content) == *old(content)
            && slot_replaced(
            *old(param),
            *final(param),
            selected as int,
            ParamValue::Transaction(parse_index_spec(old(content)@) as usize),
        ),
        slot_of(*old(param), selected as int) is Value ==> final(content)@ == (if input_type
            == InputType::Hex {
            hex_prefixed(old(content)@)
        } else {
            old(content)@
        }) && slot_replaced_by_text(*old(param), *final(param), selected as int, final(content)@),
        !(slot_of(*old(param), selected as int) is Transaction) && !(slot_of(
            *old(param),
            selected as int,
        ) is Value) ==> *final(param) == *old(param) && *final(content) == *old(content),
{
    let (is_reference, is_literal) = match param {
        ParamValue::ValueArray(items) => match &items[selected] {
            ParamValue::Transaction(_) => (true, false),
            ParamValue::Value(_) => (false, true),
            _ => (false, false),
        },
        ParamValue::Transaction(_) => (true, false),
        ParamValue::Value(_) => (false, true),
        _ => (false, false),
    };
    if is_reference {
        let index = parse_index(content.as_str());
        assign_slot(param, selected, ParamValue::Transaction(index));
    } else if is_literal {
        if input_type == InputType::Hex {
            ensure_hex_prefix(content);
        }
        let text = content.clone();
        assign_slot(param, selected, ParamValue::Value(text));
    }
}

/// `p` occurs in `s` at some position.
pub open spec fn contains_spec(s: Seq<char>, p: Seq<char>) -> bool {
    exists|i: int| 0 <= i && i + p.len() <= s.len() && #[trigger] s.subrange(i, i + p.len()) == p
}

/// Whether `p` occurs in `s`.
pub fn contains(s: &str, p: &str) -> (r: bool)
    ensures
        r == contains_spec(s@, p@),
{
    let n = s.unicode_len();
    let m = p.unicode_len();
    if m > n {
        proof {
            assert forall|i: int| 0 <= i && i + p@.len() <= s@.len() implies #[trigger] s@.subrange(
                i,
                i + p@.len(),
            ) != p@ by {}
        }
        return false;
    }
    let mut i: usize = 0;
    while i <= n - m
        invariant
            n == s@.len(),
            m == p@.len(),
            m <= n,
            i <= n - m + 1,
            forall|k: int| 0 <= k < i ==> #[trigger] s@.subrange(k, k + m) != p@,
        decreases n - m + 1 - i,
    {
        let mut j: usize = 0;
        let mut same = true;
        while j < m
            invariant
                n == s@.len(),
                m == p@.len(),
                i + m <= n,
                j <= m,
                same == (forall|k: int| 0 <= k < j ==> s@[i + k] == p@[k]),
            decreases m - j,
        {
            if s.get_char(i + j) != p.get_char(j) {
                same = false;
            }
            j += 1;
        }
        if same {
            assert(s@.subrange(i as int, i + m) =~= p@);
            return true;
        }
        proof {
            if s@.subrange(i as int, i + m) == p@ {
                assert forall|k: int| 0 <= k < m implies s@[i + k] == p@[k] by {
                    assert(s@.subrange(i as int, i + m)[k] == s@[i + k]);
                }
            }
        }
        i += 1;
    }
    false
}

/// What `str::to_lowercase` returns for `s`.
pub uninterp spec fn lowercase_of(s: Seq<char>) -> Seq<char>;

/// Relies on `str::to_lowercase`: the lowercase form of `s`, which depends
/// on the characters of `s` alone.
#[verifier::external_body]
fn lowercase(s: &str) -> (r: String)
    ensures
        r@ == lowercase_of(s@),
{
    s.to_lowercase()
}

/// `v` is the default value for a parameter whose lowercased name is
/// `lowered`: "0x" for a token or an address, an empty array for `args`,
/// "0" otherwise.
pub open spec fn is_default_for(v: ParamValue, lowered: Seq<char>) -> bool {
    if contains_spec(lowered, "token"@) || contains_spec(lowered, "address"@) {
        v matches ParamValue::Value(s) && s@ == "0x"@
    } else if lowered == "args"@ {
        v matches ParamValue::ValueArray(a) && a@.len() == 0
    } else {
        v matches ParamValue::Value(s) && s@ == "0"@
    }
}

/// The default value for a parameter whose lowercased name is `lowered`.
pub fn default_param_value(lowered: &str) -> (r: ParamValue)
    ensures
        is_default_for(r, lowered@),
{
    if contains(lowered, "token") || contains(lowered, "address") {
        ParamValue::Value(String::from_str("0x"))
    } else if String::from_str(lowered) == String::from_str("args") {
        ParamValue::ValueArray(Vec::new())
    } else {
        ParamValue::Value(String::from_str("0"))
    }
}

/// One default value per parameter of `action`, in parameter order, chosen
/// from the parameter's lowercased name.
pub fn set_default_param_values(action: &Action) -> (r: Vec<ParamValue>)
    ensures
        r@.len() == action.inputs@.len(),
        forall|k: int|
            0 <= k < r@.len() ==> is_default_for(
                #[trigger] r@[k],
                lowercase_of(action.inputs@[k].0@),
            ),
{
    let mut r: Vec<ParamValue> = Vec::new();
    let mut k: usize = 0;
    while k < action.inputs.len()
        invariant
            k <= action.inputs@.len(),
            r@.len() == k,
            forall|j: int|
                0 <= j < k ==> is_default_for(#[trigger] r@[j], lowercase_of(action.inputs@[j].0@)),
        decreases action.inputs@.len() - k,
    {
        let lowered = lowercase(action.inputs[k].0.as_str());
        r.push(default_param_value(lowered.as_str()));
        k += 1;
    }
    r
}

} // verus!
