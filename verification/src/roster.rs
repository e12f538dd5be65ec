//! Rosters: a team's name and its skaters, kept in the order of their
//! numbers so that a skater is found by number with a binary search.

use vstd::prelude::*;
use vstd::string::StringExecFns;
use vstd::utf8::decode_utf8;
use vstd::utf8::encode_utf8;
use vstd::utf8::encode_utf8_decode_utf8;
use vstd::utf8::valid_utf8;

verus! {

/// Whether `a` comes before `b` or is `b`, byte by byte: at the first place
/// where the two differ the smaller byte decides, and where neither differs
/// the shorter comes first.
pub open spec fn bytes_le(a: Seq<u8>, b: Seq<u8>) -> bool
    decreases a.len(),
{
    if a.len() == 0 {
        true
    } else if b.len() == 0 {
        false
    } else if a[0] != b[0] {
        a[0] < b[0]
    } else {
        bytes_le(a.skip(1), b.skip(1))
    }
}

/// The order of skater numbers: that of their bytes, which is the order std
/// gives to strings.
pub open spec fn number_le(a: Seq<char>, b: Seq<char>) -> bool {
    bytes_le(encode_utf8(a), encode_utf8(b))
}

/// Of two byte strings one comes before the other or is the other.
pub proof fn lemma_bytes_le_total(a: Seq<u8>, b: Seq<u8>)
    ensures
        bytes_le(a, b) || bytes_le(b, a),
    decreases a.len(),
{
    if a.len() > 0 && b.len() > 0 && a[0] == b[0] {
        lemma_bytes_le_total(a.skip(1), b.skip(1));
    }
}

/// Two byte strings of which each comes before or is the other are one.
pub proof fn lemma_bytes_le_antisymmetric(a: Seq<u8>, b: Seq<u8>)
    requires
        bytes_le(a, b),
        bytes_le(b, a),
    ensures
        a == b,
    decreases a.len(),
{
    if a.len() == 0 {
        assert(a =~= b);
    } else {
        lemma_bytes_le_antisymmetric(a.skip(1), b.skip(1));
        assert(a =~= seq![a[0]] + a.skip(1));
        assert(b =~= seq![b[0]] + b.skip(1));
    }
}

/// The order of byte strings carries over a string in between.
pub proof fn lemma_bytes_le_transitive(a: Seq<u8>, b: Seq<u8>, c: Seq<u8>)
    requires
        bytes_le(a, b),
        bytes_le(b, c),
    ensures
        bytes_le(a, c),
    decreases a.len(),
{
    if a.len() > 0 && a[0] == b[0] && b[0] == c[0] {
        lemma_bytes_le_transitive(a.skip(1), b.skip(1), c.skip(1));
    }
}

/// Every byte string comes before or is itself.
pub proof fn lemma_bytes_le_reflexive(a: Seq<u8>)
    ensures
        bytes_le(a, a),
    decreases a.len(),
{
    if a.len() > 0 {
        lemma_bytes_le_reflexive(a.skip(1));
    }
}

/// Two numbers with the same bytes are the same number.
pub proof fn lemma_number_of_bytes(a: Seq<char>, b: Seq<char>)
    requires
        encode_utf8(a) == encode_utf8(b),
    ensures
        a == b,
{
    encode_utf8_decode_utf8(a);
    encode_utf8_decode_utf8(b);
}

/// Whether `a` comes before `b` or is `b`.
fn le_bytes(a: &[u8], b: &[u8]) -> (le: bool)
    ensures
        le == bytes_le(a@, b@),
{
    let mut i: usize = 0;
    assert(a@.skip(0) =~= a@ && b@.skip(0) =~= b@);
    loop
        invariant
            i <= a.len(),
            i <= b.len(),
            bytes_le(a@, b@) == bytes_le(a@.skip(i as int), b@.skip(i as int)),
        decreases a.len() - i,
    {
        if i == a.len() {
            return true;
        }
        if i == b.len() {
            return false;
        }
        if a[i] != b[i] {
            return a[i] < b[i];
        }
        proof {
            assert(a@.skip(i as int).skip(1) =~= a@.skip(i + 1));
            assert(b@.skip(i as int).skip(1) =~= b@.skip(i + 1));
        }
        i = i + 1;
    }
}

/// Whether the number `a` comes before the number `b` or is `b`.
pub fn le_numbers(a: &str, b: &str) -> (le: bool)
    ensures
        le == number_le(a@, b@),
{
    le_bytes(a.as_bytes(), b.as_bytes())
}

/// A skater, as mathematics.
pub struct SkaterView {
    pub number: Seq<char>,
    pub name: Seq<char>,
}

/// A skater: a number, as it is worn, and a name.
pub struct Skater {
    pub number: String,
    pub name: String,
}

impl View for Skater {
    type V = SkaterView;

    open spec fn view(&self) -> SkaterView {
        SkaterView { number: self.number@, name: self.name@ }
    }
}

/// The skaters of a list, each as mathematics.
pub open spec fn views(skaters: Seq<Skater>) -> Seq<SkaterView> {
    skaters.map_values(|s: Skater| s@)
}

/// Whether the skaters stand in the order of their numbers.
pub open spec fn in_number_order(skaters: Seq<SkaterView>) -> bool {
    forall|i: int, j: int|
        0 <= i < j < skaters.len() ==> number_le(
            (#[trigger] skaters[i]).number,
            (#[trigger] skaters[j]).number,
        )
}

/// The place of the first skater who wears `number`, where one does.
pub open spec fn place_of(skaters: Seq<SkaterView>, number: Seq<char>) -> Option<int>
    decreases skaters.len(),
{
    if skaters.len() == 0 {
        None
    } else {
        match place_of(skaters.drop_last(), number) {
            Some(place) => Some(place),
            None => if skaters.last().number == number {
                Some(skaters.len() - 1)
            } else {
                None
            },
        }
    }
}

/// `place_of` gives a place at which a skater wears `number` and before
/// which none does; it gives none only where no skater wears it.
pub proof fn lemma_place_of(skaters: Seq<SkaterView>, number: Seq<char>)
    ensures
        match place_of(skaters, number) {
            Some(place) => {
                &&& 0 <= place < skaters.len()
                &&& skaters[place].number == number
                &&& forall|j: int| 0 <= j < place ==> (#[trigger] skaters[j]).number != number
            },
            None => forall|j: int|
                0 <= j < skaters.len() ==> (#[trigger] skaters[j]).number != number,
        },
    decreases skaters.len(),
{
    if skaters.len() > 0 {
        let front = skaters.drop_last();
        lemma_place_of(front, number);
        assert forall|j: int| 0 <= j < front.len() implies front[j] == skaters[j] by {}
        match place_of(front, number) {
            Some(place) => {
                assert(front[place] == skaters[place]);
                assert forall|j: int| 0 <= j < place implies (#[trigger] skaters[j]).number
                    != number by {
                    assert(front[j] == skaters[j]);
                }
            },
            None => {
                assert forall|j: int| 0 <= j < skaters.len() - 1 implies (
                #[trigger] skaters[j]).number != number by {
                    assert(front[j] == skaters[j]);
                }
            },
        }
    }
}

/// Where `i` is the first place at which a skater wears `number`, it is the
/// place that `place_of` gives.
pub proof fn lemma_place_of_first(skaters: Seq<SkaterView>, number: Seq<char>, i: int)
    requires
        0 <= i < skaters.len(),
        skaters[i].number == number,
        forall|j: int| 0 <= j < i ==> (#[trigger] skaters[j]).number != number,
    ensures
        place_of(skaters, number) == Some(i),
{
    lemma_place_of(skaters, number);
}

/// The place at which a skater goes into `skaters` to keep them in the
/// order of their numbers: behind the last one whose number does not come
/// after `number`.
pub open spec fn place_for(skaters: Seq<SkaterView>, number: Seq<char>) -> int
    decreases skaters.len(),
{
    if skaters.len() == 0 {
        0
    } else if number_le(skaters.last().number, number) {
        skaters.len() as int
    } else {
        place_for(skaters.drop_last(), number)
    }
}

/// The skaters put in the order of their numbers, those with the same
/// number in the order they came in.
pub open spec fn sorted_by_number(skaters: Seq<SkaterView>) -> Seq<SkaterView>
    decreases skaters.len(),
{
    if skaters.len() == 0 {
        skaters
    } else {
        let sorted = sorted_by_number(skaters.drop_last());
        sorted.insert(place_for(sorted, skaters.last().number), skaters.last())
    }
}

/// The place for a skater lies within the skaters or right behind them;
/// among skaters in order, none before it comes after the new number and
/// all from it on do.
pub proof fn lemma_place_for(skaters: Seq<SkaterView>, number: Seq<char>)
    requires
        in_number_order(skaters),
    ensures
        0 <= place_for(skaters, number) <= skaters.len(),
        forall|i: int|
            0 <= i < place_for(skaters, number) ==> number_le(
                (#[trigger] skaters[i]).number,
                number,
            ),
        forall|i: int|
            place_for(skaters, number) <= i < skaters.len() ==> !number_le(
                (#[trigger] skaters[i]).number,
                number,
            ),
    decreases skaters.len(),
{
    if skaters.len() > 0 {
        let front = skaters.drop_last();
        assert forall|i: int, j: int| 0 <= i < j < front.len() implies number_le(
            (#[trigger] front[i]).number,
            (#[trigger] front[j]).number,
        ) by {
            assert(front[i] == skaters[i] && front[j] == skaters[j]);
        }
        lemma_place_for(front, number);
        if number_le(skaters.last().number, number) {
            assert forall|i: int| 0 <= i < skaters.len() implies number_le(
                (#[trigger] skaters[i]).number,
                number,
            ) by {
                if i < skaters.len() - 1 {
                    assert(number_le(skaters[i].number, skaters[skaters.len() - 1].number));
                    lemma_bytes_le_transitive(
                        encode_utf8(skaters[i].number),
                        encode_utf8(skaters.last().number),
                        encode_utf8(number),
                    );
                }
            }
        } else {
            assert forall|i: int| 0 <= i < place_for(skaters, number) implies number_le(
                (#[trigger] skaters[i]).number,
                number,
            ) by {
                assert(skaters[i] == front[i]);
            }
            assert forall|i: int|
                place_for(skaters, number) <= i < skaters.len() implies !number_le(
                (#[trigger] skaters[i]).number,
                number,
            ) by {
                if i < skaters.len() - 1 {
                    assert(skaters[i] == front[i]);
                }
            }
        }
    }
}

/// A skater put at the place for their number leaves skaters in order in
/// order.
pub proof fn lemma_insert_keeps_order(skaters: Seq<SkaterView>, skater: SkaterView)
    requires
        in_number_order(skaters),
    ensures
        in_number_order(skaters.insert(place_for(skaters, skater.number), skater)),
{
    let p = place_for(skaters, skater.number);
    let out = skaters.insert(p, skater);
    lemma_place_for(skaters, skater.number);
    assert forall|i: int, j: int| 0 <= i < j < out.len() implies number_le(
        (#[trigger] out[i]).number,
        (#[trigger] out[j]).number,
    ) by {
        if j < p {
            assert(out[i] == skaters[i] && out[j] == skaters[j]);
        } else if j == p {
            assert(out[i] == skaters[i]);
        } else if i < p {
            assert(out[i] == skaters[i] && out[j] == skaters[j - 1]);
        } else if i == p {
            assert(out[j] == skaters[j - 1]);
            lemma_bytes_le_total(encode_utf8(skaters[j - 1].number), encode_utf8(skater.number));
        } else {
            assert(out[i] == skaters[i - 1] && out[j] == skaters[j - 1]);
        }
    }
}

/// Sorting puts the skaters in the order of their numbers and keeps every
/// one of them, as often as they came.
pub proof fn lemma_sorted_by_number(skaters: Seq<SkaterView>)
    ensures
        in_number_order(sorted_by_number(skaters)),
        sorted_by_number(skaters).len() == skaters.len(),
        sorted_by_number(skaters).to_multiset() == skaters.to_multiset(),
    decreases skaters.len(),
{
    if skaters.len() > 0 {
        let front = skaters.drop_last();
        let sorted = sorted_by_number(front);
        lemma_sorted_by_number(front);
        lemma_place_for(sorted, skaters.last().number);
        lemma_insert_keeps_order(sorted, skaters.last());
        vstd::seq_lib::to_multiset_insert(
            sorted,
            place_for(sorted, skaters.last().number),
            skaters.last(),
        );
        assert(skaters =~= front.push(skaters.last()));
        vstd::seq_lib::to_multiset_insert(front, front.len() as int, skaters.last());
        assert(front.insert(front.len() as int, skaters.last()) =~= front.push(skaters.last()));
    }
}

/// A team, as mathematics.
pub struct TeamView {
    pub name: Seq<char>,
    pub skaters: Seq<SkaterView>,
}

/// A team: its name and its skaters.
pub struct Team {
    pub name: String,
    pub skaters: Vec<Skater>,
}

impl View for Team {
    type V = TeamView;

    open spec fn view(&self) -> TeamView {
        TeamView { name: self.name@, skaters: views(self.skaters@) }
    }
}

impl Team {
    /// The skaters stand in the order of their numbers.
    pub open spec fn wf(&self) -> bool {
        in_number_order(self@.skaters)
    }

    /// Whether the skaters stand in the order of their numbers.
    pub fn is_sorted(&self) -> (sorted: bool)
        ensures
            sorted == self.wf(),
    {
        if self.skaters.len() == 0 {
            return true;
        }
        let mut i: usize = 1;
        while i < self.skaters.len()
            invariant
                1 <= i <= self.skaters.len(),
                in_number_order(self@.skaters.take(i as int)),
            decreases self.skaters.len() - i,
        {
            let ghost all = self@.skaters;
            if !le_numbers(self.skaters[i - 1].number.as_str(), self.skaters[i].number.as_str()) {
                assert(!number_le(all[i - 1].number, all[i as int].number));
                return false;
            }
            proof {
                assert forall|a: int, b: int| 0 <= a < b < i + 1 implies number_le(
                    (#[trigger] all.take(i + 1)[a]).number,
                    (#[trigger] all.take(i + 1)[b]).number,
                ) by {
                    if b < i {
                        assert(all.take(i as int)[a] == all[a]);
                        assert(all.take(i as int)[b] == all[b]);
                    } else if a == i - 1 {
                    } else {
                        assert(all.take(i as int)[a] == all[a]);
                        assert(all.take(i as int)[i - 1] == all[i - 1]);
                        lemma_bytes_le_transitive(
                            encode_utf8(all[a].number),
                            encode_utf8(all[i - 1].number),
                            encode_utf8(all[i as int].number),
                        );
                    }
                }
            }
            i = i + 1;
        }
        assert(self@.skaters.take(i as int) =~= self@.skaters);
        true
    }

    /// The place of the first skater who wears `number`; `None` where no
    /// skater does.
    pub fn find(&self, number: &str) -> (place: Option<usize>)
        requires
            self.wf(),
        ensures
            match place {
                Some(i) => {
                    &&& i < self@.skaters.len()
                    &&& self@.skaters[i as int].number == number@
                    &&& forall|j: int| 0 <= j < i ==> (#[trigger] self@.skaters[j]).number != number@
                    &&& place_of(self@.skaters, number@) == Some(i as int)
                },
                None => {
                    &&& forall|j: int|
                        0 <= j < self@.skaters.len() ==> (#[trigger] self@.skaters[j]).number
                            != number@
                    &&& place_of(self@.skaters, number@) is None
                },
            },
    {
        let ghost all = self@.skaters;
        let ghost key = encode_utf8(number@);
        let mut lo: usize = 0;
        let mut hi: usize = self.skaters.len();
        while lo < hi
            invariant
                lo <= hi <= self.skaters.len(),
                all == self@.skaters,
                key == encode_utf8(number@),
                in_number_order(all),
                forall|k: int| 0 <= k < lo ==> !number_le(number@, (#[trigger] all[k]).number),
                forall|k: int| hi <= k < all.len() ==> number_le(number@, (#[trigger] all[k]).number),
            decreases hi - lo,
        {
            let mid = lo + (hi - lo) / 2;
            if le_numbers(number, self.skaters[mid].number.as_str()) {
                proof {
                    assert forall|k: int| mid <= k < all.len() implies number_le(
                        number@,
                        (#[trigger] all[k]).number,
                    ) by {
                        if k > mid {
                            assert(number_le(all[mid as int].number, all[k].number));
                            lemma_bytes_le_transitive(
                                key,
                                encode_utf8(all[mid as int].number),
                                encode_utf8(all[k].number),
                            );
                        }
                    }
                }
                hi = mid;
            } else {
                proof {
                    assert forall|k: int| 0 <= k < mid + 1 implies !number_le(
                        number@,
                        (#[trigger] all[k]).number,
                    ) by {
                        if k < mid && number_le(number@, all[k].number) {
                            assert(number_le(all[k].number, all[mid as int].number));
                            lemma_bytes_le_transitive(
                                key,
                                encode_utf8(all[k].number),
                                encode_utf8(all[mid as int].number),
                            );
                        }
                    }
                }
                lo = mid + 1;
            }
        }
        if lo < self.skaters.len() && le_numbers(self.skaters[lo].number.as_str(), number) {
            proof {
                lemma_bytes_le_antisymmetric(key, encode_utf8(all[lo as int].number));
                lemma_number_of_bytes(number@, all[lo as int].number);
                assert forall|j: int| 0 <= j < lo implies (#[trigger] all[j]).number
                    != number@ by {
                    lemma_bytes_le_reflexive(key);
                }
                lemma_place_of_first(all, number@, lo as int);
            }
            Some(lo)
        } else {
            proof {
                assert forall|j: int| 0 <= j < all.len() implies (#[trigger] all[j]).number
                    != number@ by {
                    lemma_bytes_le_reflexive(key);
                    if j > lo && all[j].number == number@ {
                        assert(number_le(all[lo as int].number, all[j].number));
                    }
                }
                lemma_place_of(all, number@);
            }
            None
        }
    }
}

/// The byte that ends a line of a roster file.
pub const NEWLINE: u8 = 10;

/// The byte that parts a skater's number from the name in a roster file.
pub const TAB: u8 = 9;

/// The most bytes a skater's number may have in a roster file.
pub const NUMBER_MAX_BYTES: usize = 4;

/// Why a roster file is refused, as mathematics.
pub enum RosterErrorView {
    BadTeamName,
    NumberTooLong { number: Seq<u8> },
    BadNumber,
    BadName { name: Seq<u8> },
}

/// Why a roster file is refused.
#[derive(Clone, PartialEq, Eq, Debug)]
pub enum RosterError {
    /// The first line, which names the team, is not UTF-8.
    BadTeamName,
    /// A skater's number is longer than `NUMBER_MAX_BYTES`: this number.
    NumberTooLong { number: Vec<u8> },
    /// A skater's number is not UTF-8.
    BadNumber,
    /// A skater's name is not UTF-8: these bytes.
    BadName { name: Vec<u8> },
}

impl View for RosterError {
    type V = RosterErrorView;

    open spec fn view(&self) -> RosterErrorView {
        match self {
            RosterError::BadTeamName => RosterErrorView::BadTeamName,
            RosterError::NumberTooLong { number } => RosterErrorView::NumberTooLong {
                number: number@,
            },
            RosterError::BadNumber => RosterErrorView::BadNumber,
            RosterError::BadName { name } => RosterErrorView::BadName { name: name@ },
        }
    }
}

/// Why a person cannot be a skater.
#[derive(Debug)]
pub enum SkaterError {
    /// The person of this name has no number.
    NoNumber { name: String },
    /// The person of this name has a number of no length.
    EmptyNumber { name: String },
}

/// The first place from `from` on at which `byte` stands in `bytes`; the
/// length of `bytes` where it stands at none.
pub open spec fn next_byte(bytes: Seq<u8>, byte: u8, from: nat) -> nat
    decreases bytes.len() - from,
{
    if from >= bytes.len() {
        bytes.len()
    } else if bytes[from as int] == byte {
        from
    } else {
        next_byte(bytes, byte, from + 1)
    }
}

/// `next_byte` gives a place from `from` on and within `bytes` or at their
/// end.
pub proof fn lemma_next_byte_bounds(bytes: Seq<u8>, byte: u8, from: nat)
    requires
        from <= bytes.len(),
    ensures
        from <= next_byte(bytes, byte, from) <= bytes.len(),
        next_byte(bytes, byte, from) < bytes.len() ==> bytes[next_byte(bytes, byte, from) as int]
            == byte,
    decreases bytes.len() - from,
{
    if from < bytes.len() && bytes[from as int] != byte {
        lemma_next_byte_bounds(bytes, byte, from + 1);
    }
}

/// What one line of a roster file says, the line taken without the byte
/// that ends it. Up to the first tab stands the number, behind the tab the
/// name. A line without a number says nothing. A number of more than
/// `NUMBER_MAX_BYTES` bytes, a number that is not UTF-8 and a name that is
/// not UTF-8 are refused, the first of these that holds; the refusal holds
/// the number that is too long, or the bytes that are no name.
pub open spec fn parse_line(line: Seq<u8>) -> Result<Option<SkaterView>, RosterErrorView> {
    let tab = next_byte(line, TAB, 0);
    let number = line.subrange(0, tab as int);
    let name = if tab < line.len() {
        line.subrange(tab as int + 1, line.len() as int)
    } else {
        Seq::empty()
    };
    if number.len() == 0 {
        Ok(None)
    } else if number.len() > NUMBER_MAX_BYTES {
        Err(RosterErrorView::NumberTooLong { number })
    } else if !valid_utf8(number) {
        Err(RosterErrorView::BadNumber)
    } else if !valid_utf8(name) {
        Err(RosterErrorView::BadName { name })
    } else {
        Ok(Some(SkaterView { number: decode_utf8(number), name: decode_utf8(name) }))
    }
}

/// The skaters that the lines of `bytes` from `from` on name, in the order
/// of the lines, or the first refusal among those lines. A line ends at a
/// newline or at the end of `bytes`.
pub open spec fn parse_lines(bytes: Seq<u8>, from: nat) -> Result<
    Seq<SkaterView>,
    RosterErrorView,
>
    decreases bytes.len() + 1 - from,
    via parse_lines_decreases
{
    if from >= bytes.len() {
        Ok(Seq::empty())
    } else {
        let end = next_byte(bytes, NEWLINE, from);
        match parse_line(bytes.subrange(from as int, end as int)) {
            Err(e) => Err(e),
            Ok(entry) => match parse_lines(bytes, end + 1) {
                Err(e) => Err(e),
                Ok(more) => Ok(
                    match entry {
                        Some(skater) => seq![skater] + more,
                        None => more,
                    },
                ),
            },
        }
    }
}

#[via_fn]
proof fn parse_lines_decreases(bytes: Seq<u8>, from: nat) {
    if from < bytes.len() {
        lemma_next_byte_bounds(bytes, NEWLINE, from);
    }
}

/// The name a team has from the first line of its roster file, the line
/// taken with the newline that ends it: the line's text without its last
/// character.
pub open spec fn name_of_heading(heading: Seq<char>) -> Seq<char> {
    if heading.len() == 0 {
        heading
    } else {
        heading.drop_last()
    }
}

/// What a roster file says. The first line names the team; each line after
/// it names a skater. The skaters come out in the order of their numbers.
pub open spec fn parse_roster(bytes: Seq<u8>) -> Result<TeamView, RosterErrorView> {
    let end = next_byte(bytes, NEWLINE, 0);
    let rest = if end < bytes.len() {
        end + 1
    } else {
        end
    };
    let heading = bytes.subrange(0, rest as int);
    if !valid_utf8(heading) {
        Err(RosterErrorView::BadTeamName)
    } else {
        match parse_lines(bytes, rest) {
            Err(e) => Err(e),
            Ok(skaters) => Ok(
                TeamView {
                    name: name_of_heading(decode_utf8(heading)),
                    skaters: sorted_by_number(skaters),
                },
            ),
        }
    }
}

/// The skaters among `persons`, each a name and a number where there is
/// one: those who have a number of some length, in the order they stand in.
pub open spec fn skaters_among(persons: Seq<(Seq<char>, Option<Seq<char>>)>) -> Seq<SkaterView>
    decreases persons.len(),
{
    if persons.len() == 0 {
        Seq::empty()
    } else {
        let front = skaters_among(persons.drop_last());
        match persons.last().1 {
            Some(number) if number.len() > 0 => front.push(
                SkaterView { number, name: persons.last().0 },
            ),
            _ => front,
        }
    }
}

/// The persons of a list, each as mathematics: a name, and a number where
/// there is one.
pub open spec fn persons_of(persons: Seq<(String, Option<String>)>) -> Seq<
    (Seq<char>, Option<Seq<char>>),
> {
    persons.map_values(
        |p: (String, Option<String>)|
            (
                p.0@,
                match p.1 {
                    Some(number) => Some(number@),
                    None => None,
                },
            ),
    )
}

/// `String::from_utf8`: the text that the bytes are in UTF-8, and none where
/// they are not UTF-8. The text's own bytes are the bytes given.
#[verifier::external_body]
fn string_from_utf8(bytes: Vec<u8>) -> (text: Option<String>)
    ensures
        match text {
            Some(t) => valid_utf8(bytes@) && encode_utf8(t@) == bytes@,
            None => !valid_utf8(bytes@),
        },
{
    String::from_utf8(bytes).ok()
}

/// `String::pop`: takes the last character off the text and returns it;
/// leaves an empty text as it is and returns none.
#[verifier::external_body]
fn pop_char(text: &mut String) -> (last: Option<char>)
    ensures
        old(text)@.len() == 0 ==> last is None && final(text)@ == old(text)@,
        old(text)@.len() > 0 ==> last == Some(old(text)@.last()) && final(text)@ == old(
            text,
        )@.drop_last(),
{
    text.pop()
}

/// The first place from `from` on at which `byte` stands.
fn find_byte(bytes: &[u8], byte: u8, from: usize) -> (at: usize)
    requires
        from <= bytes.len(),
    ensures
        at == next_byte(bytes@, byte, from as nat),
        from <= at <= bytes.len(),
{
    let mut at = from;
    while at < bytes.len() && bytes[at] != byte
        invariant
            from <= at <= bytes.len(),
            next_byte(bytes@, byte, from as nat) == next_byte(bytes@, byte, at as nat),
        decreases bytes.len() - at,
    {
        at = at + 1;
    }
    at
}

/// The bytes from `from` up to `to`.
fn copy_range(bytes: &[u8], from: usize, to: usize) -> (copy: Vec<u8>)
    requires
        from <= to <= bytes.len(),
    ensures
        copy@ == bytes@.subrange(from as int, to as int),
{
    let mut copy: Vec<u8> = Vec::new();
    let mut i = from;
    while i < to
        invariant
            from <= i <= to <= bytes.len(),
            copy@ == bytes@.subrange(from as int, i as int),
        decreases to - i,
    {
        copy.push(bytes[i]);
        assert(copy@ =~= bytes@.subrange(from as int, i + 1));
        i = i + 1;
    }
    copy
}

/// Reads one line of a roster file, taken without the byte that ends it.
fn read_line(line: &[u8]) -> (entry: Result<Option<Skater>, RosterError>)
    ensures
        match entry {
            Ok(Some(skater)) => parse_line(line@) == Ok::<Option<SkaterView>, RosterErrorView>(
                Some(skater@),
            ),
            Ok(None) => parse_line(line@) == Ok::<Option<SkaterView>, RosterErrorView>(None),
            Err(e) => parse_line(line@) == Err::<Option<SkaterView>, RosterErrorView>(e@),
        },
{
    let tab = find_byte(line, TAB, 0);
    if tab == 0 {
        return Ok(None);
    }
    if tab > NUMBER_MAX_BYTES {
        return Err(RosterError::NumberTooLong { number: copy_range(line, 0, tab) });
    }
    let number = match string_from_utf8(copy_range(line, 0, tab)) {
        Some(number) => number,
        None => {
            return Err(RosterError::BadNumber);
        },
    };
    let name_bytes = if tab < line.len() {
        copy_range(line, tab + 1, line.len())
    } else {
        Vec::new()
    };
    let name = match string_from_utf8(name_bytes) {
        Some(name) => name,
        None => {
            let name = if tab < line.len() {
                copy_range(line, tab + 1, line.len())
            } else {
                Vec::new()
            };
            return Err(RosterError::BadName { name });
        },
    };
    proof {
        encode_utf8_decode_utf8(number@);
        encode_utf8_decode_utf8(name@);
    }
    Ok(Some(Skater { number, name }))
}

/// Puts `skater` among `skaters` at the place for the number.
fn insert_skater(skaters: &mut Vec<Skater>, skater: Skater)
    requires
        in_number_order(views(old(skaters)@)),
    ensures
        views(final(skaters)@) == views(old(skaters)@).insert(
            place_for(views(old(skaters)@), skater@.number),
            skater@,
        ),
        in_number_order(views(final(skaters)@)),
{
    let ghost before = views(skaters@);
    let mut place = skaters.len();
    assert(before.take(place as int) =~= before);
    while place > 0 && !le_numbers(skaters[place - 1].number.as_str(), skater.number.as_str())
        invariant
            place <= skaters.len(),
            before == views(skaters@),
            place_for(before, skater@.number) == place_for(
                before.take(place as int),
                skater@.number,
            ),
        decreases place,
    {
        assert(before.take(place as int).drop_last() =~= before.take(place - 1));
        place = place - 1;
    }
    proof {
        if place == 0 {
            assert(before.take(0).len() == 0);
        }
        lemma_insert_keeps_order(before, skater@);
    }
    skaters.insert(place, skater);
    assert(views(skaters@) =~= before.insert(place as int, skater@));
}

impl Skater {
    /// The skater that a person of this name and number is. A person without
    /// a number, or with a number of no length, is no skater.
    pub fn from_derbyjson(name: String, number: Option<String>) -> (skater: Result<
        Skater,
        SkaterError,
    >)
        ensures
            match skater {
                Ok(s) => number == Some(s.number) && s.number@.len() > 0 && s.name == name,
                Err(SkaterError::NoNumber { name: n }) => number is None && n == name,
                Err(SkaterError::EmptyNumber { name: n }) => number is Some && number->0@.len()
                    == 0 && n == name,
            },
    {
        match number {
            Some(number) => {
                if number.as_str().is_empty() {
                    Err(SkaterError::EmptyNumber { name })
                } else {
                    Ok(Skater { name, number })
                }
            },
            None => Err(SkaterError::NoNumber { name }),
        }
    }
}

impl Team {
    /// Reads a roster file. The first line names the team, each line after
    /// it a skater: the number, a tab, the name. Lines without a number are
    /// passed over. The skaters come out in the order of their numbers.
    pub fn from_file(input: &[u8]) -> (team: Result<Team, RosterError>)
        ensures
            match team {
                Ok(t) => parse_roster(input@) == Ok::<TeamView, RosterErrorView>(t@) && t.wf(),
                Err(e) => parse_roster(input@) == Err::<TeamView, RosterErrorView>(e@),
            },
    {
        let end = find_byte(input, NEWLINE, 0);
        let rest = if end < input.len() {
            end + 1
        } else {
            end
        };
        let mut name = match string_from_utf8(copy_range(input, 0, rest)) {
            Some(name) => name,
            None => {
                return Err(RosterError::BadTeamName);
            },
        };
        let ghost heading = input@.subrange(0, rest as int);
        proof {
            encode_utf8_decode_utf8(name@);
        }
        pop_char(&mut name);
        let mut skaters: Vec<Skater> = Vec::new();
        let ghost mut read: Seq<SkaterView> = Seq::empty();
        let mut from = rest;
        assert(views(skaters@) =~= sorted_by_number(read));
        while from < input.len()
            invariant
                rest <= from <= input.len(),
                end == next_byte(input@, NEWLINE, 0),
                rest == if end < input.len() {
                    end + 1
                } else {
                    end as int
                },
                heading == input@.subrange(0, rest as int),
                valid_utf8(heading),
                name@ == name_of_heading(decode_utf8(heading)),
                in_number_order(views(skaters@)),
                views(skaters@) == sorted_by_number(read),
                parse_lines(input@, rest as nat) == match parse_lines(input@, from as nat) {
                    Ok(more) => Ok::<Seq<SkaterView>, RosterErrorView>(read + more),
                    Err(e) => Err(e),
                },
            decreases input.len() - from,
        {
            let end = find_byte(input, NEWLINE, from);
            let line = copy_range(input, from, end);
            let next = if end < input.len() {
                end + 1
            } else {
                end
            };
            let ghost tail = parse_lines(input@, (end + 1) as nat);
            assert(tail == parse_lines(input@, next as nat));
            match read_line(line.as_slice()) {
                Err(e) => {
                    return Err(e);
                },
                Ok(None) => {},
                Ok(Some(skater)) => {
                    proof {
                        let ghost longer = read.push(skater@);
                        assert(longer.drop_last() =~= read);
                        if let Ok(more) = tail {
                            assert(longer + more =~= read + (seq![skater@] + more));
                        }
                        read = longer;
                    }
                    insert_skater(&mut skaters, skater);
                },
            }
            from = next;
        }
        proof {
            assert(read + Seq::<SkaterView>::empty() =~= read);
        }
        Ok(Team { name, skaters })
    }

    /// The team of this name of this league, with the skaters among
    /// `persons`, each a name and a number where there is one. A team of a
    /// league is called by the league's name, ` - ` and its own. Persons
    /// without a number of some length are left out; the skaters come out in
    /// the order of their numbers.
    pub fn from_derbyjson(
        name: String,
        league: Option<String>,
        persons: Vec<(String, Option<String>)>,
    ) -> (team: Team)
        ensures
            team.wf(),
            team@.name == match league {
                Some(l) => l@ + " - "@ + name@,
                None => name@,
            },
            team@.skaters == sorted_by_number(skaters_among(persons_of(persons@))),
    {
        let called = match league {
            Some(league) => league.concat(" - ").concat(name.as_str()),
            None => name,
        };
        let ghost all = persons_of(persons@);
        let mut skaters: Vec<Skater> = Vec::new();
        let mut i: usize = 0;
        assert(all.take(0) =~= Seq::empty());
        assert(views(skaters@) =~= sorted_by_number(skaters_among(all.take(0))));
        while i < persons.len()
            invariant
                i <= persons.len(),
                all == persons_of(persons@),
                in_number_order(views(skaters@)),
                views(skaters@) == sorted_by_number(skaters_among(all.take(i as int))),
            decreases persons.len() - i,
        {
            let person_name = persons[i].0.clone();
            let number = match &persons[i].1 {
                Some(number) => Some(number.clone()),
                None => None,
            };
            proof {
                assert(all.take(i + 1).drop_last() =~= all.take(i as int));
                assert(all.take(i + 1).last() == all[i as int]);
            }
            match Skater::from_derbyjson(person_name, number) {
                Ok(skater) => {
                    proof {
                        let ghost among = skaters_among(all.take(i as int));
                        assert(among.push(skater@).drop_last() =~= among);
                    }
                    insert_skater(&mut skaters, skater);
                },
                Err(_) => {},
            }
            i = i + 1;
        }
        assert(all.take(i as int) =~= all);
        Team { name: called, skaters }
    }
}

} // verus!
