use vstd::prelude::*;
use vstd::string::*;

use crate::text::chars_of;

verus! {

/// The sizes recorded for one stored image, as the contracts see them.
pub struct EntryModel {
    pub name: Seq<char>,
    pub full: nat,
    pub thumb: nat,
}

/// The sizes recorded for one stored image: the bytes of the full-size
/// file, and the bytes of the thumbnail file.
pub struct SizeEntry {
    pub name: String,
    pub full: usize,
    pub thumb: usize,
}

impl View for SizeEntry {
    type V = EntryModel;

    open spec fn view(&self) -> EntryModel {
        EntryModel { name: self.name@, full: self.full as nat, thumb: self.thumb as nat }
    }
}

/// Whether some entry carries `name`.
pub open spec fn has_name(entries: Seq<EntryModel>, name: Seq<char>) -> bool {
    exists|i: int| 0 <= i < entries.len() && (#[trigger] entries[i]).name == name
}

/// The place of an entry that carries `name`, where there is one.
pub open spec fn position_of(entries: Seq<EntryModel>, name: Seq<char>) -> int {
    choose|i: int| 0 <= i < entries.len() && (#[trigger] entries[i]).name == name
}

/// No two entries carry the same name.
pub open spec fn distinct_names(entries: Seq<EntryModel>) -> bool {
    forall|i: int, j: int|
        0 <= i < j < entries.len() ==> (#[trigger] entries[i]).name != (#[trigger] entries[j]).name
}

/// The entries after `entry` has been recorded: it takes the place of the
/// entry with its name, or comes last where the name is new.
pub open spec fn recorded(entries: Seq<EntryModel>, entry: EntryModel) -> Seq<EntryModel> {
    if has_name(entries, entry.name) {
        entries.update(position_of(entries, entry.name), entry)
    } else {
        entries.push(entry)
    }
}

/// The entries after each of `added` has been recorded in turn.
pub open spec fn recorded_all(entries: Seq<EntryModel>, added: Seq<EntryModel>) -> Seq<EntryModel>
    decreases added.len(),
{
    if added.len() == 0 {
        entries
    } else {
        recorded(recorded_all(entries, added.drop_last()), added.last())
    }
}

/// The character of a decimal digit.
pub open spec fn digit_char(digit: int) -> char {
    if digit == 0 {
        '0'
    } else if digit == 1 {
        '1'
    } else if digit == 2 {
        '2'
    } else if digit == 3 {
        '3'
    } else if digit == 4 {
        '4'
    } else if digit == 5 {
        '5'
    } else if digit == 6 {
        '6'
    } else if digit == 7 {
        '7'
    } else if digit == 8 {
        '8'
    } else {
        '9'
    }
}

/// The decimal numeral of `n`, without leading zeros.
pub open spec fn decimal(n: nat) -> Seq<char>
    decreases n,
{
    if n < 10 {
        seq![digit_char(n as int)]
    } else {
        decimal(n / 10).push(digit_char((n % 10) as int))
    }
}

/// The digit that a character stands for.
pub open spec fn digit_value(c: char) -> int {
    c as int - '0' as int
}

/// The number that a string of decimal digits denotes.
pub open spec fn numeral_value(digits: Seq<char>) -> int
    decreases digits.len(),
{
    if digits.len() == 0 {
        0
    } else {
        10 * numeral_value(digits.drop_last()) + digit_value(digits.last())
    }
}

/// The numeral of `n` is made of digits, has no leading zero but for zero
/// itself, and denotes `n`.
pub proof fn lemma_decimal_denotes(n: nat)
    ensures
        decimal(n).len() >= 1,
        forall|i: int| 0 <= i < decimal(n).len() ==> 0 <= digit_value(#[trigger] decimal(n)[i]) <= 9,
        decimal(n)[0] == '0' <==> n == 0,
        numeral_value(decimal(n)) == n,
    decreases n,
{
    reveal_with_fuel(numeral_value, 2);
    if n < 10 {
        assert(decimal(n).drop_last() =~= Seq::<char>::empty());
    } else {
        lemma_decimal_denotes(n / 10);
        let front = decimal(n / 10);
        assert(decimal(n).drop_last() =~= front);
        assert(decimal(n)[0] == front[0]);
    }
}

/// The character of a hexadecimal digit, in lower case.
pub open spec fn hex_char(digit: int) -> char {
    if digit < 10 {
        digit_char(digit)
    } else if digit == 10 {
        'a'
    } else if digit == 11 {
        'b'
    } else if digit == 12 {
        'c'
    } else if digit == 13 {
        'd'
    } else if digit == 14 {
        'e'
    } else {
        'f'
    }
}

/// Whether a character may not stand in a JSON string as it is: the double
/// quote, the backslash, and the control characters below the space.
pub open spec fn needs_escape(c: char) -> bool {
    c == '"' || c == '\\' || (c as int) < 0x20
}

/// How a character is written inside a JSON string: a double quote and a
/// backslash behind a backslash, a control character as `\u00` and its two
/// hexadecimal digits, every other character as it is.
pub open spec fn escaped_char(c: char) -> Seq<char> {
    if c == '"' {
        seq!['\\', '"']
    } else if c == '\\' {
        seq!['\\', '\\']
    } else if (c as int) < 0x20 {
        seq!['\\', 'u', '0', '0', hex_char(c as int / 16), hex_char(c as int % 16)]
    } else {
        seq![c]
    }
}

/// How a text is written inside a JSON string: character by character.
pub open spec fn escaped(text: Seq<char>) -> Seq<char>
    decreases text.len(),
{
    if text.len() == 0 {
        Seq::empty()
    } else {
        escaped_char(text.first()) + escaped(text.drop_first())
    }
}

/// The JSON string that denotes `text`: its escaped characters between
/// double quotes.
pub open spec fn json_string(text: Seq<char>) -> Seq<char> {
    seq!['"'] + escaped(text) + seq!['"']
}

/// One member of the report: `"name": { "full": F, "thumb": T }`, with the
/// name as a JSON string.
pub open spec fn entry_json(entry: EntryModel) -> Seq<char> {
    json_string(entry.name) + ": { \"full\": "@ + decimal(entry.full) + ", \"thumb\": "@ + decimal(
        entry.thumb,
    ) + " }"@
}

/// Escaping goes character by character, so a text with one more character
/// is escaped by escaping that character behind the text.
pub proof fn lemma_escaped_push(text: Seq<char>, c: char)
    ensures
        escaped(text.push(c)) == escaped(text) + escaped_char(c),
    decreases text.len(),
{
    let more = text.push(c);
    if text.len() == 0 {
        assert(more.drop_first() =~= Seq::<char>::empty());
        assert(escaped(more.drop_first()) =~= Seq::<char>::empty());
        assert(escaped(more) =~= escaped_char(c));
        assert(escaped(text) + escaped_char(c) =~= escaped_char(c));
    } else {
        assert(more.first() == text.first());
        assert(more.drop_first() =~= text.drop_first().push(c));
        lemma_escaped_push(text.drop_first(), c);
        assert(escaped(more) =~= escaped(text) + escaped_char(c));
    }
}

/// Two texts that are written alike inside a JSON string are the same
/// text: different names never give the same key.
pub proof fn lemma_escaped_is_faithful(first: Seq<char>, second: Seq<char>)
    requires
        escaped(first) == escaped(second),
    ensures
        first == second,
    decreases first.len(),
{
    if first.len() == 0 || second.len() == 0 {
        if first.len() > 0 {
            assert(escaped(first).len() >= escaped_char(first.first()).len());
        }
        if second.len() > 0 {
            assert(escaped(second).len() >= escaped_char(second.first()).len());
        }
        assert(first =~= second);
    } else {
        let a = first.first();
        let b = second.first();
        let head_a = escaped_char(a);
        let head_b = escaped_char(b);
        let out = escaped(first);
        assert(out =~= head_a + escaped(first.drop_first()));
        assert(out =~= head_b + escaped(second.drop_first()));
        assert(out[0] == head_a[0] && out[0] == head_b[0]);
        assert(needs_escape(a) == needs_escape(b));
        if needs_escape(a) {
            assert(out[1] == head_a[1] && out[1] == head_b[1]);
            if (a as int) < 0x20 && a != '"' && a != '\\' {
                assert(head_a[1] == 'u');
                assert(b != '"' && b != '\\');
                assert((b as int) < 0x20);
                lemma_char_code_is_natural(a);
                lemma_char_code_is_natural(b);
                assert(head_a.len() == 6 && head_b.len() == 6);
                assert(out[4] == head_a[4] && out[4] == head_b[4]);
                assert(out[5] == head_a[5] && out[5] == head_b[5]);
                lemma_hex_char_is_faithful(a as int / 16, b as int / 16);
                lemma_hex_char_is_faithful(a as int % 16, b as int % 16);
                assert(a as int == b as int);
            }
        }
        assert(a == b);
        assert(escaped(first.drop_first()) =~= out.skip(head_a.len() as int));
        assert(escaped(second.drop_first()) =~= out.skip(head_b.len() as int));
        lemma_escaped_is_faithful(first.drop_first(), second.drop_first());
        assert(first =~= seq![a] + first.drop_first());
        assert(second =~= seq![b] + second.drop_first());
    }
}

/// The code of a character is not negative.
proof fn lemma_char_code_is_natural(c: char)
    ensures
        0 <= c as int,
{
}

/// Different hexadecimal digits have different characters.
proof fn lemma_hex_char_is_faithful(first: int, second: int)
    requires
        0 <= first < 16,
        0 <= second < 16,
        hex_char(first) == hex_char(second),
    ensures
        first == second,
{
}

/// Inside a JSON string no control character is left, and a double quote
/// or a backslash stands only where an escape puts it: a text that needs
/// no escape is written as it is.
pub proof fn lemma_escaped_is_clean(text: Seq<char>)
    ensures
        forall|i: int| 0 <= i < escaped(text).len() ==> (#[trigger] escaped(text)[i]) as int >= 0x20,
        (forall|i: int| 0 <= i < text.len() ==> !needs_escape(#[trigger] text[i])) ==> escaped(text)
            == text,
    decreases text.len(),
{
    if text.len() > 0 {
        let rest = text.drop_first();
        lemma_escaped_is_clean(rest);
        let head = escaped_char(text.first());
        assert forall|i: int| 0 <= i < escaped(text).len() implies (#[trigger] escaped(text)[i]) as int
            >= 0x20 by {
            if i >= head.len() {
                assert(escaped(text)[i] == escaped(rest)[i - head.len()]);
            }
        }
        if forall|i: int| 0 <= i < text.len() ==> !needs_escape(#[trigger] text[i]) {
            assert(!needs_escape(text[0]));
            assert forall|i: int| 0 <= i < rest.len() implies !needs_escape(#[trigger] rest[i]) by {
                assert(rest[i] == text[i + 1]);
            }
            assert(escaped(text) =~= text);
        }
    }
}

/// The members of the report in order, separated by a comma and a space.
pub open spec fn entries_json(entries: Seq<EntryModel>) -> Seq<char>
    decreases entries.len(),
{
    if entries.len() == 0 {
        Seq::empty()
    } else if entries.len() == 1 {
        entry_json(entries[0])
    } else {
        entries_json(entries.drop_last()) + ", "@ + entry_json(entries.last())
    }
}

/// The body of the response: `{}` for no entries, else the members between
/// `{ ` and ` }`.
pub open spec fn report_json(entries: Seq<EntryModel>) -> Seq<char> {
    if entries.len() == 0 {
        "{}"@
    } else {
        "{ "@ + entries_json(entries) + " }"@
    }
}

fn digit_of(digit: usize) -> (c: char)
    requires
        digit < 10,
    ensures
        c == digit_char(digit as int),
{
    if digit == 0 {
        '0'
    } else if digit == 1 {
        '1'
    } else if digit == 2 {
        '2'
    } else if digit == 3 {
        '3'
    } else if digit == 4 {
        '4'
    } else if digit == 5 {
        '5'
    } else if digit == 6 {
        '6'
    } else if digit == 7 {
        '7'
    } else if digit == 8 {
        '8'
    } else {
        '9'
    }
}

/// Appends the decimal numeral of `n` to `out`.
pub fn push_decimal(out: &mut String, n: usize)
    ensures
        final(out)@ == old(out)@ + decimal(n as nat),
    decreases n,
{
    if n < 10 {
        out.push(digit_of(n));
        assert(old(out)@.push(digit_char(n as int)) =~= old(out)@ + decimal(n as nat));
    } else {
        push_decimal(out, n / 10);
        out.push(digit_of(n % 10));
        assert((old(out)@ + decimal((n / 10) as nat)).push(digit_char((n % 10) as int)) =~= old(
            out,
        )@ + decimal(n as nat));
    }
}

fn hex_of(digit: u32) -> (c: char)
    requires
        digit < 16,
    ensures
        c == hex_char(digit as int),
{
    if digit < 10 {
        digit_of(digit as usize)
    } else if digit == 10 {
        'a'
    } else if digit == 11 {
        'b'
    } else if digit == 12 {
        'c'
    } else if digit == 13 {
        'd'
    } else if digit == 14 {
        'e'
    } else {
        'f'
    }
}

/// Appends `c` as it is written inside a JSON string.
fn push_escaped_char(out: &mut String, c: char)
    ensures
        final(out)@ == old(out)@ + escaped_char(c),
{
    let code = c as u32;
    if c == '"' {
        out.push('\\');
        out.push('"');
    } else if c == '\\' {
        out.push('\\');
        out.push('\\');
    } else if code < 0x20 {
        out.push('\\');
        out.push('u');
        out.push('0');
        out.push('0');
        out.push(hex_of(code / 16));
        out.push(hex_of(code % 16));
    } else {
        out.push(c);
    }
    assert(out@ =~= old(out)@ + escaped_char(c));
}

/// Appends the JSON string that denotes `text`.
pub fn push_json_string(out: &mut String, text: &str)
    ensures
        final(out)@ == old(out)@ + json_string(text@),
{
    let chars = chars_of(text);
    out.push('"');
    let mut i: usize = 0;
    assert(chars@.take(0) =~= Seq::<char>::empty());
    assert(out@ =~= old(out)@ + seq!['"'] + escaped(chars@.take(0)));
    while i < chars.len()
        invariant
            i <= chars@.len(),
            out@ == old(out)@ + seq!['"'] + escaped(chars@.take(i as int)),
        decreases chars@.len() - i,
    {
        push_escaped_char(out, chars[i]);
        proof {
            lemma_escaped_push(chars@.take(i as int), chars@[i as int]);
            assert(chars@.take(i + 1) =~= chars@.take(i as int).push(chars@[i as int]));
            assert(out@ =~= old(out)@ + seq!['"'] + escaped(chars@.take(i + 1)));
        }
        i += 1;
    }
    assert(chars@.take(chars@.len() as int) =~= chars@);
    out.push('"');
    assert(out@ =~= old(out)@ + json_string(text@));
}

/// Appends one member of the report to `out`.
fn push_entry(out: &mut String, entry: &SizeEntry)
    ensures
        final(out)@ == old(out)@ + entry_json(entry@),
{
    push_json_string(out, entry.name.as_str());
    out.append(": { \"full\": ");
    push_decimal(out, entry.full);
    out.append(", \"thumb\": ");
    push_decimal(out, entry.thumb);
    out.append(" }");
    assert(out@ =~= old(out)@ + entry_json(entry@));
}

/// The sizes recorded in one request, by file name, in the order in which
/// the names first came.
pub struct IngestionResult {
    entries: Vec<SizeEntry>,
}

impl View for IngestionResult {
    type V = Seq<EntryModel>;

    closed spec fn view(&self) -> Seq<EntryModel> {
        Seq::new(self.entries@.len(), |i: int| self.entries@[i]@)
    }
}

impl IngestionResult {
    /// No name is recorded twice.
    pub open spec fn well_formed(&self) -> bool {
        distinct_names(self@)
    }

    /// A result with no entry.
    pub fn new() -> (r: IngestionResult)
        ensures
            r@ == Seq::<EntryModel>::empty(),
            r.well_formed(),
    {
        let r = IngestionResult { entries: Vec::new() };
        assert(r@ =~= Seq::<EntryModel>::empty());
        r
    }

    /// The number of names recorded.
    pub fn len(&self) -> (n: usize)
        ensures
            n == self@.len(),
    {
        self.entries.len()
    }

    /// The entry at place `index`, where there is one.
    pub fn entry(&self, index: usize) -> (e: Option<&SizeEntry>)
        ensures
            match e {
                Some(entry) => index < self@.len() && entry@ == self@[index as int],
                None => index >= self@.len(),
            },
    {
        if index < self.entries.len() {
            Some(&self.entries[index])
        } else {
            None
        }
    }

    /// The place of the entry that carries `name`.
    pub fn find(&self, name: &String) -> (r: Option<usize>)
        requires
            self.well_formed(),
        ensures
            match r {
                Some(i) => i < self@.len() && self@[i as int].name == name@ && i == position_of(
                    self@,
                    name@,
                ),
                None => !has_name(self@, name@),
            },
    {
        let mut i: usize = 0;
        while i < self.entries.len()
            invariant
                i <= self.entries@.len(),
                self@.len() == self.entries@.len(),
                forall|k: int| 0 <= k < i ==> (#[trigger] self@[k]).name != name@,
                distinct_names(self@),
            decreases self.entries@.len() - i,
        {
            if self.entries[i].name == *name {
                assert(self@[i as int].name == name@);
                assert(has_name(self@, name@));
                return Some(i);
            }
            i += 1;
        }
        None
    }

    /// The sizes recorded under `name`: the full-size bytes, then the
    /// thumbnail bytes.
    pub fn get(&self, name: &str) -> (r: Option<(usize, usize)>)
        requires
            self.well_formed(),
        ensures
            match r {
                Some(sizes) => has_name(self@, name@) && sizes.0 == self@[position_of(
                    self@,
                    name@,
                )].full && sizes.1 == self@[position_of(self@, name@)].thumb,
                None => !has_name(self@, name@),
            },
    {
        let key = name.to_owned();
        match self.find(&key) {
            Some(i) => {
                let e = &self.entries[i];
                Some((e.full, e.thumb))
            },
            None => None,
        }
    }

    /// Records the sizes of the image stored under `name`. A name that is
    /// already there keeps its place and takes the new sizes.
    pub fn record(&mut self, name: String, full: usize, thumb: usize)
        requires
            old(self).well_formed(),
        ensures
            final(self)@ == recorded(
                old(self)@,
                EntryModel { name: name@, full: full as nat, thumb: thumb as nat },
            ),
            final(self).well_formed(),
    {
        let ghost before = self@;
        let ghost added = EntryModel { name: name@, full: full as nat, thumb: thumb as nat };
        proof {
            lemma_recorded_keeps_names_distinct(before, added);
        }
        let found = self.find(&name);
        let entry = SizeEntry { name, full, thumb };
        match found {
            Some(i) => {
                self.entries.set(i, entry);
                assert(self@ =~= before.update(i as int, added));
            },
            None => {
                self.entries.push(entry);
                assert(self@ =~= before.push(added));
            },
        }
    }

    /// The body of the response for this result.
    pub fn to_json(&self) -> (body: String)
        ensures
            body@ == report_json(self@),
    {
        let n = self.entries.len();
        if n == 0 {
            return "{}".to_owned();
        }
        let mut body = "{ ".to_owned();
        push_entry(&mut body, &self.entries[0]);
        assert(self@.take(1) =~= seq![self@[0]]);
        let mut i: usize = 1;
        while i < n
            invariant
                1 <= i <= n,
                n == self.entries@.len(),
                n == self@.len(),
                body@ == "{ "@ + entries_json(self@.take(i as int)),
            decreases n - i,
        {
            body.append(", ");
            push_entry(&mut body, &self.entries[i]);
            proof {
                let next = self@.take(i + 1);
                assert(next.drop_last() =~= self@.take(i as int));
                assert(next.last() == self@[i as int]);
                assert(body@ =~= "{ "@ + entries_json(next));
            }
            i += 1;
        }
        assert(self@.take(n as int) =~= self@);
        body.append(" }");
        body
    }
}

/// Recording an entry leaves the names distinct.
pub proof fn lemma_recorded_keeps_names_distinct(entries: Seq<EntryModel>, entry: EntryModel)
    requires
        distinct_names(entries),
    ensures
        distinct_names(recorded(entries, entry)),
{
    let after = recorded(entries, entry);
    if has_name(entries, entry.name) {
        let p = position_of(entries, entry.name);
        assert forall|i: int, j: int| 0 <= i < j < after.len() implies (#[trigger] after[i]).name
            != (#[trigger] after[j]).name by {
            assert(entries[i].name != entries[j].name);
            assert(entries[p].name == entry.name);
        }
    } else {
        assert forall|i: int, j: int| 0 <= i < j < after.len() implies (#[trigger] after[i]).name
            != (#[trigger] after[j]).name by {
            if j < entries.len() {
                assert(entries[i].name != entries[j].name);
            } else {
                assert(entries[i].name != entry.name);
            }
        }
    }
}

/// A name that has been recorded is there, with the sizes last recorded
/// for it; recording it again changes neither the number of entries nor
/// any other entry.
pub proof fn lemma_recorded_entry_is_found(entries: Seq<EntryModel>, entry: EntryModel)
    requires
        distinct_names(entries),
    ensures
        has_name(recorded(entries, entry), entry.name),
        recorded(entries, entry)[position_of(recorded(entries, entry), entry.name)] == entry,
        has_name(entries, entry.name) ==> recorded(entries, entry).len() == entries.len(),
        !has_name(entries, entry.name) ==> recorded(entries, entry).len() == entries.len() + 1,
        forall|i: int|
            0 <= i < entries.len() && (#[trigger] entries[i]).name != entry.name ==> recorded(
                entries,
                entry,
            )[i] == entries[i],
{
    let after = recorded(entries, entry);
    lemma_recorded_keeps_names_distinct(entries, entry);
    if has_name(entries, entry.name) {
        let p = position_of(entries, entry.name);
        assert(after[p].name == entry.name);
    } else {
        assert(after[entries.len() as int].name == entry.name);
    }
    let q = position_of(after, entry.name);
    assert(after[q].name == entry.name);
    if has_name(entries, entry.name) {
        let p = position_of(entries, entry.name);
        if q != p {
            assert(after[p].name == entry.name);
            if q < p {
                assert(after[q].name != after[p].name);
            } else {
                assert(after[p].name != after[q].name);
            }
        }
    } else {
        if q != entries.len() {
            assert(entries[q].name == entry.name);
        }
    }
}

/// Recording entries whose names are all new and all different adds them
/// at the end, in order.
pub proof fn lemma_recorded_all_appends(entries: Seq<EntryModel>, added: Seq<EntryModel>)
    requires
        distinct_names(entries + added),
    ensures
        recorded_all(entries, added) == entries + added,
    decreases added.len(),
{
    if added.len() == 0 {
        assert(entries + added =~= entries);
    } else {
        let front = added.drop_last();
        let whole = entries + added;
        assert forall|i: int, j: int| 0 <= i < j < (entries + front).len() implies (#[trigger] (
            entries + front)[i]).name != (#[trigger] (entries + front)[j]).name by {
            assert(whole[i].name != whole[j].name);
        }
        lemma_recorded_all_appends(entries, front);
        let sofar = entries + front;
        assert(!has_name(sofar, added.last().name)) by {
            if has_name(sofar, added.last().name) {
                let p = position_of(sofar, added.last().name);
                assert(whole[p].name != whole[whole.len() - 1].name);
            }
        }
        assert(sofar.push(added.last()) =~= entries + added);
    }
}

} // verus!
