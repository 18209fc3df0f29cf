//! Named registers for yanked text, and the terminal clipboard escape
//! sequence (OSC 52) that mirrors the unnamed and `+` registers.
use crate::assoc::{alist_find, alist_get, alist_map, lemma_alist_get, lemma_alist_get_at, lemma_alist_get_none, lemma_alist_store};
use crate::strutil::{push_char, push_str};
use crate::text::{to_ascii_lowercase, to_ascii_lowercase_spec};
use vstd::prelude::*;
use vstd::utf8::encode_utf8;

verus! {

/// The base64 digit for a value below 64 (RFC 4648 standard alphabet).
pub open spec fn b64_digit(v: int) -> char {
    if v < 26 {
        (65 + v) as char
    } else if v < 52 {
        (97 + v - 26) as char
    } else if v < 62 {
        (48 + v - 52) as char
    } else if v == 62 {
        '+'
    } else {
        '/'
    }
}

/// RFC 4648 base64 of `b`, padded with `=`.
pub open spec fn base64_spec(b: Seq<u8>) -> Seq<char>
    decreases b.len(),
{
    if b.len() >= 3 {
        seq![
            b64_digit((b[0] >> 2) as int),
            b64_digit((((b[0] & 3) << 4) | (b[1] >> 4)) as int),
            b64_digit((((b[1] & 15) << 2) | (b[2] >> 6)) as int),
            b64_digit((b[2] & 63) as int),
        ] + base64_spec(b.skip(3))
    } else if b.len() == 2 {
        seq![
            b64_digit((b[0] >> 2) as int),
            b64_digit((((b[0] & 3) << 4) | (b[1] >> 4)) as int),
            b64_digit(((b[1] & 15) << 2) as int),
            '=',
        ]
    } else if b.len() == 1 {
        seq![b64_digit((b[0] >> 2) as int), b64_digit(((b[0] & 3) << 4) as int), '=', '=']
    } else {
        Seq::empty()
    }
}

fn digit(v: u32) -> (c: char)
    requires
        v < 64,
    ensures
        c == b64_digit(v as int),
{
    if v < 26 {
        ((65 + v) as u8) as char
    } else if v < 52 {
        ((97 + v - 26) as u8) as char
    } else if v < 62 {
        ((48 + v - 52) as u8) as char
    } else if v == 62 {
        '+'
    } else {
        '/'
    }
}

/// Minimal RFC 4648 base64 encoder; the output is padded with `=`.
pub fn base64_encode(input: &[u8]) -> (out: String)
    ensures
        out@ == base64_spec(input@),
{
    let mut out = String::new();
    let mut i: usize = 0;
    assert(input@.skip(0) =~= input@);
    while input.len() - i >= 3
        invariant
            i <= input@.len(),
            base64_spec(input@) == out@ + base64_spec(input@.skip(i as int)),
        decreases input@.len() - i,
    {
        let b0 = input[i];
        let b1 = input[i + 1];
        let b2 = input[i + 2];
        let n: u32 = ((b0 as u32) << 16) | ((b1 as u32) << 8) | (b2 as u32);
        assert(((n >> 18) & 0x3F) == (b0 >> 2) as u32 && ((n >> 12) & 0x3F) == (((b0 & 3) << 4) | (b1 >> 4)) as u32 && ((n >> 6) & 0x3F) == (((b1 & 15) << 2) | (b2 >> 6)) as u32 && (n & 0x3F) == (b2 & 63) as u32 && ((n >> 18) & 0x3F) < 64 && ((n >> 12) & 0x3F) < 64 && ((n >> 6) & 0x3F) < 64 && (n & 0x3F) < 64) by (bit_vector)
            requires
                n == ((b0 as u32) << 16) | ((b1 as u32) << 8) | (b2 as u32),
        ;
        let ghost rest = input@.skip(i as int);
        push_char(&mut out, digit((n >> 18) & 0x3F));
        push_char(&mut out, digit((n >> 12) & 0x3F));
        push_char(&mut out, digit((n >> 6) & 0x3F));
        push_char(&mut out, digit(n & 0x3F));
        proof {
            assert(rest[0] == b0 && rest[1] == b1 && rest[2] == b2);
            assert(rest.skip(3) =~= input@.skip(i + 3));
        }
        i += 3;
    }
    let ghost rest = input@.skip(i as int);
    let r = input.len() - i;
    if r == 1 {
        let b0 = input[i];
        let n: u32 = (b0 as u32) << 16;
        assert(((n >> 18) & 0x3F) == (b0 >> 2) as u32 && ((n >> 12) & 0x3F) == ((b0 & 3) << 4) as u32 && ((n >> 18) & 0x3F) < 64 && ((n >> 12) & 0x3F) < 64) by (bit_vector)
            requires
                n == (b0 as u32) << 16,
        ;
        push_char(&mut out, digit((n >> 18) & 0x3F));
        push_char(&mut out, digit((n >> 12) & 0x3F));
        push_char(&mut out, '=');
        push_char(&mut out, '=');
        proof {
            assert(rest[0] == b0);
        }
    } else if r == 2 {
        let b0 = input[i];
        let b1 = input[i + 1];
        let n: u32 = ((b0 as u32) << 16) | ((b1 as u32) << 8);
        assert(((n >> 18) & 0x3F) == (b0 >> 2) as u32 && ((n >> 12) & 0x3F) == (((b0 & 3) << 4) | (b1 >> 4)) as u32 && ((n >> 6) & 0x3F) == ((b1 & 15) << 2) as u32 && ((n >> 18) & 0x3F) < 64 && ((n >> 12) & 0x3F) < 64 && ((n >> 6) & 0x3F) < 64) by (bit_vector)
            requires
                n == ((b0 as u32) << 16) | ((b1 as u32) << 8),
        ;
        push_char(&mut out, digit((n >> 18) & 0x3F));
        push_char(&mut out, digit((n >> 12) & 0x3F));
        push_char(&mut out, digit((n >> 6) & 0x3F));
        push_char(&mut out, '=');
        proof {
            assert(rest[0] == b0 && rest[1] == b1);
        }
    } else {
        assert(base64_spec(rest) =~= Seq::<char>::empty());
    }
    out
}

/// The OSC 52 sequence that asks the terminal to put `text` on the system
/// clipboard: `ESC ] 52 ; c ; <base64 of the UTF-8 bytes> BEL`.
pub open spec fn osc52_spec(text: Seq<char>) -> Seq<char> {
    seq!['\u{1b}', ']', '5', '2', ';', 'c', ';'] + base64_spec(encode_utf8(text)) + seq!['\u{07}']
}

/// The clipboard escape sequence for `text`; none for an empty text.
pub fn clipboard_sequence(text: &str) -> (r: Option<String>)
    ensures
        text@.len() == 0 ==> r is None,
        text@.len() > 0 ==> (r matches Some(s) && s@ == osc52_spec(text@)),
{
    if text.is_empty() {
        return None;
    }
    let mut out = String::new();
    push_char(&mut out, '\u{1b}');
    push_char(&mut out, ']');
    push_char(&mut out, '5');
    push_char(&mut out, '2');
    push_char(&mut out, ';');
    push_char(&mut out, 'c');
    push_char(&mut out, ';');
    let encoded = base64_encode(text.as_bytes());
    push_str(&mut out, encoded.as_str());
    push_char(&mut out, '\u{07}');
    proof {
        assert(out@ =~= osc52_spec(text@));
    }
    Some(out)
}

/// Registers `a`..`z`, `"` (unnamed, the default) and `+` (clipboard).
pub struct Register {
    registers: Vec<(char, String)>,
    default_register: char,
    /// Clipboard escape sequences not yet written to the terminal.
    clipboard_out: Vec<String>,
}

/// The register names that exist from the start.
pub open spec fn initial_register(c: char) -> bool {
    ('a' <= c <= 'z') || c == '"' || c == '+'
}

impl Register {
    /// The contents of each register.
    pub closed spec fn view(&self) -> Map<char, Seq<char>> {
        alist_map(self.registers@).map_values(|s: String| s@)
    }

    /// The register used when none is named.
    pub closed spec fn default_name(&self) -> char {
        self.default_register
    }

    /// Clipboard escape sequences waiting to be written to the terminal.
    pub closed spec fn pending_clipboard(&self) -> Seq<Seq<char>> {
        self.clipboard_out@.map_values(|s: String| s@)
    }

    pub fn new() -> (r: Self)
        ensures
            forall|c: char| #[trigger] r.view().contains_key(c) <==> initial_register(c),
            forall|c: char| initial_register(c) ==> #[trigger] r.view()[c].len() == 0,
            r.default_name() == '"',
            r.pending_clipboard().len() == 0,
    {
        let mut registers: Vec<(char, String)> = Vec::new();
        let mut c: u8 = 97;
        while c <= 122
            invariant
                97 <= c <= 123,
                registers@.len() == c - 97,
                forall|i: int| 0 <= i < registers@.len() ==> #[trigger] registers@[i] == ((97 + i) as char, registers@[i].1) && registers@[i].1@.len() == 0,
            decreases 123 - c,
        {
            registers.push((c as char, String::new()));
            c += 1;
        }
        registers.push(('"', String::new()));
        registers.push(('+', String::new()));
        let r = Register { registers, default_register: '"', clipboard_out: Vec::new() };
        proof {
            let v = r.registers@;
            assert forall|k: char| initial_register(k) implies #[trigger] r.view().contains_key(k) && r.view()[k].len() == 0 by {
                let i: int = if 'a' <= k <= 'z' { k as int - 97 } else if k == '"' { 26 } else { 27 };
                assert(v[i].0 == k);
                assert forall|j: int| 0 <= j < i implies v[j].0 != k by {
                    if j < 26 {
                        assert(v[j].0 == (97 + j) as char);
                    }
                }
                lemma_alist_get_at(v, i, k);
                assert(alist_map(v).contains_key(k));
                assert(r.view()[k] == alist_map(v)[k]@);
            }
            assert forall|k: char| #[trigger] r.view().contains_key(k) <==> initial_register(k) by {
                if !initial_register(k) {
                    assert forall|i: int| 0 <= i < v.len() implies v[i].0 != k by {
                        if i < 26 {
                            assert(v[i].0 == (97 + i) as char);
                        }
                    }
                    lemma_alist_get_none(v, k);
                    assert(!alist_map(v).contains_key(k));
                }
            }
            assert forall|k: char| initial_register(k) implies #[trigger] r.view()[k].len() == 0 by {
                assert(r.view().contains_key(k));
            }
            assert(r.pending_clipboard() =~= Seq::<Seq<char>>::empty());
        }
        r
    }

    /// Stores `content` in register `name` (lowercased). Writing the unnamed
    /// or `+` register also queues a clipboard escape sequence for a
    /// non-empty content.
    pub fn set(&mut self, name: char, content: &str)
        ensures
            final(self).view() == old(self).view().insert(to_ascii_lowercase_spec(name), content@),
            final(self).default_name() == old(self).default_name(),
            final(self).pending_clipboard() == if (to_ascii_lowercase_spec(name) == '"'
                || to_ascii_lowercase_spec(name) == '+') && content@.len() > 0 {
                old(self).pending_clipboard().push(osc52_spec(content@))
            } else {
                old(self).pending_clipboard()
            },
    {
        let reg = to_ascii_lowercase(name);
        let ghost v = self.registers@;
        let value = String::from_str(content);
        match alist_find(&self.registers, reg) {
            Some(i) => {
                self.registers.set(i, (reg, value));
            },
            None => {
                self.registers.push((reg, value));
            },
        }
        proof {
            lemma_alist_store(v, self.registers@, reg, value);
            assert(self.view() =~= old(self).view().insert(reg, content@));
        }
        if reg == '"' || reg == '+' {
            if let Some(seq) = clipboard_sequence(content) {
                self.clipboard_out.push(seq);
            }
        }
        proof {
            assert(self.pending_clipboard() =~= if (reg == '"' || reg == '+') && content@.len() > 0 {
                old(self).pending_clipboard().push(osc52_spec(content@))
            } else {
                old(self).pending_clipboard()
            });
        }
    }

    /// The contents of register `name` (lowercased); empty when it does not exist.
    pub fn get(&self, name: char) -> (r: String)
        ensures
            r@ == if self.view().contains_key(to_ascii_lowercase_spec(name)) {
                self.view()[to_ascii_lowercase_spec(name)]
            } else {
                Seq::empty()
            },
    {
        let reg = to_ascii_lowercase(name);
        match alist_find(&self.registers, reg) {
            Some(i) => {
                proof {
                    lemma_alist_get_at(self.registers@, i as int, reg);
                }
                self.registers[i].1.clone()
            },
            None => {
                proof {
                    lemma_alist_get_none(self.registers@, reg);
                }
                String::new()
            },
        }
    }

    /// The contents of the default register.
    pub fn get_default(&self) -> (r: String)
        ensures
            r@ == if self.view().contains_key(to_ascii_lowercase_spec(self.default_name())) {
                self.view()[to_ascii_lowercase_spec(self.default_name())]
            } else {
                Seq::empty()
            },
    {
        self.get(self.default_register)
    }

    /// Hands out the queued clipboard escape sequences, oldest first.
    pub fn take_clipboard_writes(&mut self) -> (r: Vec<String>)
        ensures
            r@.map_values(|s: String| s@) == old(self).pending_clipboard(),
            final(self).pending_clipboard().len() == 0,
            final(self).view() == old(self).view(),
            final(self).default_name() == old(self).default_name(),
    {
        let mut out = Vec::new();
        std::mem::swap(&mut out, &mut self.clipboard_out);
        proof {
            assert(self.pending_clipboard() =~= Seq::<Seq<char>>::empty());
        }
        out
    }
}

/// What a register gives back after a write: reading any spelling of the
/// name (upper or lower case) gives the text written, and every register of
/// another name keeps its contents.
pub proof fn lemma_register_write_read(
    registers: Map<char, Seq<char>>,
    name: char,
    read_as: char,
    content: Seq<char>,
    other: char,
)
    requires
        to_ascii_lowercase_spec(read_as) == to_ascii_lowercase_spec(name),
    ensures
        registers.insert(to_ascii_lowercase_spec(name), content).contains_key(
            to_ascii_lowercase_spec(read_as),
        ),
        registers.insert(to_ascii_lowercase_spec(name), content)[to_ascii_lowercase_spec(read_as)]
            == content,
        to_ascii_lowercase_spec(other) != to_ascii_lowercase_spec(name) ==> registers.insert(
            to_ascii_lowercase_spec(name),
            content,
        ).contains_key(to_ascii_lowercase_spec(other)) == registers.contains_key(
            to_ascii_lowercase_spec(other),
        ),
        to_ascii_lowercase_spec(other) != to_ascii_lowercase_spec(name) && registers.contains_key(
            to_ascii_lowercase_spec(other),
        ) ==> registers.insert(to_ascii_lowercase_spec(name), content)[to_ascii_lowercase_spec(
            other,
        )] == registers[to_ascii_lowercase_spec(other)],
{
}

impl Default for Register {
    fn default() -> (r: Self)
        ensures
            forall|c: char| #[trigger] r.view().contains_key(c) <==> initial_register(c),
            forall|c: char| initial_register(c) ==> #[trigger] r.view()[c].len() == 0,
            r.default_name() == '"',
            r.pending_clipboard().len() == 0,
    {
        Register::new()
    }
}

} // verus!
