//! What texts of numbers and documents say, how texts are cut, and how they are ordered.
use vstd::prelude::*;
use vstd::string::*;
use vstd::utf8::encode_utf8;
use crate::agent::{DISPLAY_LIMIT, EVENT_LIMIT, PERMISSION_LIMIT, REQUEST_LIMIT};
use crate::agents::{AGENT_LIMIT, LABEL_LIMIT, PROMPT_LIMIT, RECORD_LIMIT};
use crate::config::{NANOS_PER_MILLI, NANOS_PER_SECOND};
use crate::json::{
    compact, compact_texts_are_one_line, debug_text, plain_numbers, rendered, rendered_items,
    rendered_members, JsonView, Notation, NumberView,
};
use crate::lines::{read_bytes, source_name, LINE_LIMIT, Reading, Source};
use crate::protocol::line_of;
use crate::table::bytes_before;
use crate::text::{
    blank, clipped, clipping_keeps_a_fitting_prefix, decimal_text, lossy_text, quoted_text, trimmed,
    trimmed_end, trimmed_start, white_space,
};
use crate::tools::{
    CONDUIT_REPOSITORY, GIT_SECONDS, HANDSHAKE_SECONDS, REQUEST_SECONDS, WRITE_SECONDS,
};

verus! {

/// The number that decimal digits stand for.
pub open spec fn numeral_value(s: Seq<char>) -> int
    decreases s.len(),
{
    if s.len() == 0 {
        0
    } else {
        10 * numeral_value(s.drop_last()) + (s.last() as int - '0' as int)
    }
}

/// The decimal text of a number consists of digits that stand for this number, and starts with
/// zero just where it is the number zero.
pub proof fn decimal_texts_stand_for_their_numbers(n: nat)
    ensures
        numeral_value(decimal_text(n)) == n,
        decimal_text(n).len() > 0,
        forall|i: int|
            0 <= i < decimal_text(n).len() ==> '0' <= #[trigger] decimal_text(n)[i] <= '9',
        decimal_text(n)[0] == '0' <==> n == 0,
        n == 0 ==> decimal_text(n).len() == 1,
    decreases n,
{
    if n < 10 {
        let s = decimal_text(n);
        assert(s.drop_last() =~= Seq::<char>::empty());
        assert(numeral_value(s.drop_last()) == 0);
    } else {
        decimal_texts_stand_for_their_numbers(n / 10);
        let s = decimal_text(n);
        assert(s.drop_last() =~= decimal_text(n / 10));
    }
}

/// The plain documents in compact text.
pub proof fn plain_documents_are_written_as_json(n: u64, m: i64, text: Seq<char>)
    ensures
        compact(JsonView::Null) == "null"@,
        compact(JsonView::Bool(true)) == "true"@,
        compact(JsonView::Bool(false)) == "false"@,
        compact(JsonView::Number(NumberView::Unsigned(n))) == decimal_text(n as nat),
        compact(JsonView::Number(NumberView::Negative(m))) == if m < 0 {
            "-"@ + decimal_text((-m) as nat)
        } else {
            decimal_text(m as nat)
        },
        compact(JsonView::Number(NumberView::Float(text))) == text,
        compact(JsonView::Text(text)) == quoted_text(text),
        compact(JsonView::Array(Seq::empty())) == "[]"@,
        compact(JsonView::Object(Seq::empty())) == "{}"@,
{
    reveal_strlit("[");
    reveal_strlit("]");
    reveal_strlit("[]");
    reveal_strlit("{");
    reveal_strlit("}");
    reveal_strlit("{}");
    assert(rendered_items(Seq::empty(), Notation::Compact) =~= Seq::<char>::empty());
    assert(rendered_members(Seq::empty(), Notation::Compact) =~= Seq::<char>::empty());
    assert("["@ + Seq::<char>::empty() + "]"@ =~= "[]"@);
    assert("{"@ + Seq::<char>::empty() + "}"@ =~= "{}"@);
}

/// One more item of an array stands before the closing bracket, behind a comma where it is not
/// the first.
pub proof fn arrays_are_written_item_by_item(items: Seq<JsonView>, item: JsonView)
    ensures
        compact(JsonView::Array(items.push(item))) == compact(JsonView::Array(items)).drop_last()
            + (if items.len() == 0 {
            Seq::empty()
        } else {
            ","@
        }) + compact(item) + "]"@,
{
    reveal_strlit("[");
    reveal_strlit("]");
    let all = items.push(item);
    assert(all.subrange(0, all.len() - 1) =~= items);
    let before = rendered_items(items, Notation::Compact);
    assert(("["@ + before + "]"@).drop_last() =~= "["@ + before);
    if items.len() == 0 {
        assert(before =~= Seq::<char>::empty());
        assert("["@ + compact(item) + "]"@ =~= "["@ + before + Seq::<char>::empty() + compact(item)
            + "]"@);
    } else {
        assert("["@ + (before + ","@ + compact(item)) + "]"@ =~= "["@ + before + ","@ + compact(
            item,
        ) + "]"@);
    }
}

/// One more member of an object stands before the closing brace as its quoted name, a colon and
/// its value, behind a comma where it is not the first.
pub proof fn objects_are_written_member_by_member(
    members: Seq<(Seq<char>, JsonView)>,
    name: Seq<char>,
    value: JsonView,
)
    ensures
        compact(JsonView::Object(members.push((name, value)))) == compact(
            JsonView::Object(members),
        ).drop_last() + (if members.len() == 0 {
            Seq::empty()
        } else {
            ","@
        }) + quoted_text(name) + ":"@ + compact(value) + "}"@,
{
    reveal_strlit("{");
    reveal_strlit("}");
    let all = members.push((name, value));
    assert(all.subrange(0, all.len() - 1) =~= members);
    let before = rendered_members(members, Notation::Compact);
    let this = quoted_text(name) + ":"@ + compact(value);
    assert(("{"@ + before + "}"@).drop_last() =~= "{"@ + before);
    if members.len() == 0 {
        assert(before =~= Seq::<char>::empty());
        assert("{"@ + this + "}"@ =~= "{"@ + before + Seq::<char>::empty() + quoted_text(name)
            + ":"@ + compact(value) + "}"@);
    } else {
        assert("{"@ + (before + ","@ + this) + "}"@ =~= "{"@ + before + ","@ + quoted_text(name)
            + ":"@ + compact(value) + "}"@);
    }
}

/// The developer notation names the kind of every value.
pub proof fn the_developer_notation_names_kinds(b: bool, n: u64, text: Seq<char>)
    ensures
        rendered(JsonView::Null, Notation::Developer) == "Null"@,
        rendered(JsonView::Bool(b), Notation::Developer) == "Bool("@ + compact(JsonView::Bool(b))
            + ")"@,
        rendered(JsonView::Number(NumberView::Unsigned(n)), Notation::Developer) == "Number("@
            + decimal_text(n as nat) + ")"@,
        rendered(JsonView::Text(text), Notation::Developer) == "String("@ + debug_text(text) + ")"@,
{
}

/// A clipped text is the longest beginning whose encoding fits: it is the text itself where that
/// fits, and one more character would not fit otherwise.
pub proof fn clipping_keeps_as_much_as_fits(s: Seq<char>, max: nat)
    ensures
        clipped(s, max).is_prefix_of(s),
        encode_utf8(clipped(s, max)).len() <= max,
        encode_utf8(s).len() <= max ==> clipped(s, max) == s,
        clipped(s, max).len() < s.len() ==> encode_utf8(
            s.take(clipped(s, max).len() as int + 1),
        ).len()
            > max,
    decreases s.len(),
{
    clipping_keeps_a_fitting_prefix(s, max);
    if s.len() > 0 && encode_utf8(s).len() > max {
        let shorter = s.drop_last();
        clipping_keeps_as_much_as_fits(shorter, max);
        let n = clipped(s, max).len();
        if n < shorter.len() {
            assert(shorter.take(n as int + 1) =~= s.take(n as int + 1));
        } else {
            assert(s.take(n as int + 1) =~= s);
        }
    }
}

/// Trimming at the end takes white space only, and all of it.
pub proof fn trimming_the_end_takes_white_space(s: Seq<char>)
    ensures
        trimmed_end(s).is_prefix_of(s),
        blank(s.skip(trimmed_end(s).len() as int)),
        trimmed_end(s).len() > 0 ==> !white_space(trimmed_end(s).last()),
    decreases s.len(),
{
    if s.len() > 0 && white_space(s.last()) {
        let head = s.drop_last();
        trimming_the_end_takes_white_space(head);
        let n = trimmed_end(s).len() as int;
        assert(s.take(n) =~= head.take(n));
        assert forall|i: int| 0 <= i < s.skip(n).len() implies #[trigger] white_space(
            s.skip(n)[i],
        ) by {
            if i < head.skip(n).len() {
                assert(white_space(head.skip(n)[i]));
                assert(head.skip(n)[i] == s.skip(n)[i]);
            }
        }
    }
}

/// Trimming at the start takes white space only, and all of it.
pub proof fn trimming_the_start_takes_white_space(s: Seq<char>)
    ensures
        trimmed_start(s).is_suffix_of(s),
        blank(s.take(s.len() - trimmed_start(s).len())),
        trimmed_start(s).len() > 0 ==> !white_space(trimmed_start(s)[0]),
    decreases s.len(),
{
    if s.len() > 0 && white_space(s.first()) {
        let tail = s.drop_first();
        trimming_the_start_takes_white_space(tail);
        let n = trimmed_start(s).len() as int;
        assert(s.skip(s.len() - n) =~= tail.skip(tail.len() - n));
        let cut = s.take(s.len() - n);
        assert forall|i: int| 0 <= i < cut.len() implies #[trigger] white_space(cut[i]) by {
            if i > 0 {
                assert(white_space(tail.take(tail.len() - n)[i - 1]));
                assert(tail.take(tail.len() - n)[i - 1] == cut[i]);
            }
        }
    } else {
        assert(s.skip(0) =~= s);
    }
}

/// A trimmed text begins and ends with no white space, and what was taken away is white space.
pub proof fn trimming_takes_white_space_only(s: Seq<char>)
    ensures
        exists|before: Seq<char>, after: Seq<char>|
            #![trigger blank(before), blank(after)]
            s == before + trimmed(s) + after && blank(before) && blank(after),
        trimmed(s).len() > 0 ==> !white_space(trimmed(s)[0]) && !white_space(trimmed(s).last()),
{
    let middle = trimmed_start(s);
    trimming_the_start_takes_white_space(s);
    trimming_the_end_takes_white_space(middle);
    let before = s.take(s.len() - middle.len());
    let after = middle.skip(trimmed(s).len() as int);
    assert(middle =~= trimmed(s) + after);
    assert(s =~= before + trimmed(s) + after);
    assert(blank(before) && blank(after));
    if trimmed(s).len() > 0 {
        assert(trimmed(s)[0] == middle[0]);
    }
}

/// Texts are ordered by the first byte in which their encodings differ; a text comes before
/// every longer text that begins with it.
pub proof fn the_first_difference_decides_the_order(a: Seq<u8>, b: Seq<u8>, k: int)
    requires
        0 <= k <= a.len(),
        k < b.len(),
        forall|i: int| 0 <= i < k ==> #[trigger] a[i] == b[i],
        k < a.len() ==> a[k] != b[k],
    ensures
        bytes_before(a, b) <==> (k == a.len() || a[k] < b[k]),
    decreases k,
{
    if k > 0 {
        assert(a[0] == b[0]);
        assert forall|i: int| 0 <= i < k - 1 implies #[trigger] a.drop_first()[i]
            == b.drop_first()[i] by {
            assert(a[i + 1] == b[i + 1]);
        }
        the_first_difference_decides_the_order(a.drop_first(), b.drop_first(), k - 1);
    }
}

/// The lines that a process writes come one by one, without their ends: a line of up to 1048575
/// bytes is passed on, and a longer one ends the reading with a complaint.
pub proof fn lines_of_up_to_a_mebibyte_are_read(source: Source, line: Seq<u8>)
    requires
        !line.contains(10u8),
    ensures
        line.len() <= 1048575 ==> ({
            let r = read_bytes(
                source,
                Reading { partial: Seq::empty(), active: true },
                line.push(10u8),
            );
            r.0.active && r.0.partial.len() == 0 && r.1 == seq![
                Ok::<Seq<char>, Seq<char>>(trimmed_end(lossy_text(line.push(10u8)))),
            ]
        }),
        line.len() > 1048576 ==> ({
            let r = read_bytes(source, Reading { partial: Seq::empty(), active: true }, line);
            !r.0.active && r.1.len() == 1 && (r.1[0] matches Err(why) && source_name(
                source,
            ).is_prefix_of(why))
        }),
{
    let start = Reading { partial: Seq::empty(), active: true };
    if line.len() <= 1048575 {
        crate::lines::a_fitting_line_is_passed_on(source, line);
    }
    if line.len() > 1048576 {
        let first = line.take(1048577);
        let rest = line.skip(1048577);
        assert(line =~= first + rest);
        assert(!first.drop_last().contains(10u8)) by {
            if first.drop_last().contains(10u8) {
                let i = choose|i: int| 0 <= i < 1048576 && first.drop_last()[i] == 10u8;
                assert(line[i] == 10u8);
            }
        }
        crate::lines::an_overlong_line_ends_the_reading(source, first, rest);
        let why = read_bytes(source, start, line).1[0]->Err_0;
        assert(source_name(source) =~= why.take(source_name(source).len() as int));
    }
}

/// The characters that count as white space.
pub proof fn these_characters_are_white_space(c: char)
    ensures
        white_space(c) <==> {
            ||| c == ' '
            ||| '\t' <= c <= '\r'
            ||| c == '\u{85}'
            ||| c == '\u{a0}'
            ||| c == '\u{1680}'
            ||| '\u{2000}' <= c <= '\u{200a}'
            ||| c == '\u{2028}'
            ||| c == '\u{2029}'
            ||| c == '\u{202f}'
            ||| c == '\u{205f}'
            ||| c == '\u{3000}'
        },
{
}

/// The line for a document is its compact text and a line end, and has no other line end where no
/// number of the document has one in its text.
pub proof fn documents_fill_one_line(v: JsonView)
    requires
        plain_numbers(v),
    ensures
        line_of(v).len() == compact(v).len() + 1,
        line_of(v).drop_last() == compact(v),
        line_of(v).last() == '\n',
        !compact(v).contains('\n'),
{
    reveal_strlit("\n");
    assert(line_of(v).drop_last() =~= compact(v));
    compact_texts_are_one_line(v);
    if compact(v).contains('\n') {
        let i = choose|i: int| 0 <= i < compact(v).len() && compact(v)[i] == '\n';
        assert(compact(v)[i] != '\n');
    }
}

/// The developer notation of an array and of an object, item by item.
pub proof fn the_developer_notation_goes_item_by_item(
    items: Seq<JsonView>,
    item: JsonView,
    members: Seq<(Seq<char>, JsonView)>,
    name: Seq<char>,
)
    ensures
        rendered(JsonView::Array(items), Notation::Developer) == "Array ["@ + rendered_items(
            items,
            Notation::Developer,
        ) + "]"@,
        rendered(JsonView::Object(members), Notation::Developer) == "Object {"@ + rendered_members(
            members,
            Notation::Developer,
        ) + "}"@,
        rendered_items(Seq::empty(), Notation::Developer).len() == 0,
        rendered_items(items.push(item), Notation::Developer) == rendered_items(
            items,
            Notation::Developer,
        ) + (if items.len() == 0 {
            Seq::empty()
        } else {
            ", "@
        }) + rendered(item, Notation::Developer),
        rendered_members(Seq::empty(), Notation::Developer).len() == 0,
        rendered_members(members.push((name, item)), Notation::Developer) == rendered_members(
            members,
            Notation::Developer,
        ) + (if members.len() == 0 {
            Seq::empty()
        } else {
            ", "@
        }) + debug_text(name) + ": "@ + rendered(item, Notation::Developer),
{
    let all = items.push(item);
    assert(all.subrange(0, all.len() - 1) =~= items);
    let fields = members.push((name, item));
    assert(fields.subrange(0, fields.len() - 1) =~= members);
    let this = rendered(item, Notation::Developer);
    let told = rendered_items(items, Notation::Developer);
    let named = rendered_members(members, Notation::Developer);
    if items.len() == 0 {
        assert(this =~= told + Seq::<char>::empty() + this);
    }
    if members.len() == 0 {
        assert(debug_text(name) + ": "@ + this =~= named + Seq::<char>::empty() + debug_text(name)
            + ": "@ + this);
    } else {
        assert(named + ", "@ + (debug_text(name) + ": "@ + this) =~= named + ", "@ + debug_text(
            name,
        ) + ": "@ + this);
    }
}

/// The limits that the program keeps to.
pub proof fn the_limits_are_these()
    ensures
        LINE_LIMIT == 1024 * 1024,
        EVENT_LIMIT == 256,
        DISPLAY_LIMIT == 16 * 1024,
        PERMISSION_LIMIT == 16,
        REQUEST_LIMIT == 64 * 1024,
        RECORD_LIMIT == 128,
        AGENT_LIMIT == 64,
        LABEL_LIMIT == 80,
        PROMPT_LIMIT == 32 * 1024,
        REQUEST_SECONDS == 10,
        WRITE_SECONDS == 3,
        HANDSHAKE_SECONDS == 30,
        GIT_SECONDS == 120,
        NANOS_PER_MILLI * 1000 == NANOS_PER_SECOND,
        NANOS_PER_SECOND == 1_000_000_000,
        CONDUIT_REPOSITORY@ == "https://github.com/cogwheel0/conduit.git"@,
{
}

} // verus!
