//! The words of "The Twelve Days of Christmas", verse by verse.

use vstd::prelude::*;
use vstd::string::*;

verus! {

/// The name of the `day`th day, for a day from 1 to 12.
pub open spec fn rank_of(day: int) -> Seq<char> {
    if day == 1 {
        "first"@
    }     else if day == 2 {
        "second"@
    }     else if day == 3 {
        "third"@
    }     else if day == 4 {
        "fourth"@
    }     else if day == 5 {
        "fifth"@
    }     else if day == 6 {
        "sixth"@
    }     else if day == 7 {
        "seventh"@
    }     else if day == 8 {
        "eighth"@
    }     else if day == 9 {
        "ninth"@
    }     else if day == 10 {
        "tenth"@
    }     else if day == 11 {
        "eleventh"@
    } else {
        "twelfth"@
    }
}

/// The name of the `day`th day.
pub fn rank(day: u8) -> (name: &'static str)
    requires
        1 <= day <= 12,
    ensures
        name@ == rank_of(day as int),
{
    if day == 1 {
        "first"
    }     else if day == 2 {
        "second"
    }     else if day == 3 {
        "third"
    }     else if day == 4 {
        "fourth"
    }     else if day == 5 {
        "fifth"
    }     else if day == 6 {
        "sixth"
    }     else if day == 7 {
        "seventh"
    }     else if day == 8 {
        "eighth"
    }     else if day == 9 {
        "ninth"
    }     else if day == 10 {
        "tenth"
    }     else if day == 11 {
        "eleventh"
    } else {
        "twelfth"
    }
}

/// The line of the gift that the `day`th day adds, for a day from 1 to 12.
pub open spec fn gift_of(day: int) -> Seq<char> {
    if day == 1 {
        "A partridge in a pear tree"@
    }     else if day == 2 {
        "Two turtle doves, and"@
    }     else if day == 3 {
        "Three French hens,"@
    }     else if day == 4 {
        "Four calling birds,"@
    }     else if day == 5 {
        "Five gold rings,"@
    }     else if day == 6 {
        "Six geese a laying,"@
    }     else if day == 7 {
        "Seven swans a swimming,"@
    }     else if day == 8 {
        "Eight maids a milking,"@
    }     else if day == 9 {
        "Nine ladies dancing,"@
    }     else if day == 10 {
        "Ten lords a leaping,"@
    }     else if day == 11 {
        "Eleven pipers piping,"@
    } else {
        "Twelve drummers drumming,"@
    }
}

/// The line of the gift that the `day`th day adds.
pub fn gift(day: u8) -> (line: &'static str)
    requires
        1 <= day <= 12,
    ensures
        line@ == gift_of(day as int),
{
    if day == 1 {
        "A partridge in a pear tree"
    }     else if day == 2 {
        "Two turtle doves, and"
    }     else if day == 3 {
        "Three French hens,"
    }     else if day == 4 {
        "Four calling birds,"
    }     else if day == 5 {
        "Five gold rings,"
    }     else if day == 6 {
        "Six geese a laying,"
    }     else if day == 7 {
        "Seven swans a swimming,"
    }     else if day == 8 {
        "Eight maids a milking,"
    }     else if day == 9 {
        "Nine ladies dancing,"
    }     else if day == 10 {
        "Ten lords a leaping,"
    }     else if day == 11 {
        "Eleven pipers piping,"
    } else {
        "Twelve drummers drumming,"
    }
}

/// The gifts of the `day`th day: its own first, then those of the days
/// before it, down to the first day's.
pub open spec fn gifts_from(day: int) -> Seq<Seq<char>>
    decreases day,
{
    if day <= 0 {
        Seq::empty()
    } else {
        seq![gift_of(day)] + gifts_from(day - 1)
    }
}

/// The line that opens the verse of the `day`th day.
pub open spec fn opening_of(day: int) -> Seq<char> {
    "On the "@ + rank_of(day) + " day of Christmas my true love gave to me"@
}

/// The verse of the `day`th day: its opening, its gifts, and an empty line.
pub open spec fn verse_of(day: int) -> Seq<Seq<char>> {
    seq![opening_of(day)] + gifts_from(day) + seq![Seq::<char>::empty()]
}

/// The song up to and with the `days`th day: an empty line, the title, and
/// the verses in their order.
pub open spec fn carol_of(days: int) -> Seq<Seq<char>>
    decreases days,
{
    if days <= 0 {
        seq![Seq::<char>::empty(), "The 12 Days of Christmas:"@]
    } else {
        carol_of(days - 1) + verse_of(days)
    }
}

/// Appends the verse of the `day`th day to `lines`.
pub fn push_verse(lines: &mut Vec<String>, day: u8)
    requires
        1 <= day <= 12,
    ensures
        final(lines).deep_view() == old(lines).deep_view() + verse_of(day as int),
{
    let ghost before = lines.deep_view();
    let opening = String::from_str("On the ").concat(rank(day)).concat(
        " day of Christmas my true love gave to me",
    );
    lines.push(opening);
    proof {
        assert(lines.deep_view() =~= before + seq![opening_of(day as int)]);
        assert(gifts_from(0) =~= Seq::<Seq<char>>::empty());
    }
    let mut left: u8 = day;
    while left > 0
        invariant
            left <= day <= 12,
            lines.deep_view() + gifts_from(left as int) == before + seq![opening_of(day as int)]
                + gifts_from(day as int),
        decreases left,
    {
        let ghost so_far = lines.deep_view();
        lines.push(String::from_str(gift(left)));
        proof {
            assert(lines.deep_view() =~= so_far + seq![gift_of(left as int)]);
            assert(so_far + (seq![gift_of(left as int)] + gifts_from(left - 1)) =~= so_far + seq![
                gift_of(left as int),
            ] + gifts_from(left - 1));
        }
        left -= 1;
    }
    let ghost so_far = lines.deep_view();
    lines.push(String::new());
    proof {
        assert(so_far + gifts_from(0) =~= so_far);
        assert(lines.deep_view() =~= so_far + seq![Seq::<char>::empty()]);
        assert(before + seq![opening_of(day as int)] + gifts_from(day as int) + seq![
            Seq::<char>::empty(),
        ] =~= before + verse_of(day as int));
    }
}

/// The lines of the whole song, twelve verses long.
pub fn christmas_carol_lyrics() -> (lines: Vec<String>)
    ensures
        lines.deep_view() == carol_of(12),
{
    let mut lines: Vec<String> = Vec::new();
    lines.push(String::new());
    lines.push(String::from_str("The 12 Days of Christmas:"));
    proof {
        assert(lines.deep_view() =~= carol_of(0));
    }
    let mut day: u8 = 1;
    while day <= 12
        invariant
            1 <= day <= 13,
            lines.deep_view() == carol_of(day - 1),
        decreases 13 - day,
    {
        push_verse(&mut lines, day);
        day += 1;
    }
    lines
}

} // verus!
