//! Path templates and how their placeholders are filled in.
//!
//! A template is the path of an endpoint with `{name}` standing where a field of the
//! request goes: `kv/{key}`. Each placeholder names a field that the request must have.

use vstd::prelude::*;
use crate::api::endpoint::Param;
use crate::api::endpoint::ParamView;
use crate::error::ClientError;
use crate::error::ClientErrorView;
use crate::escape::component;
use crate::escape::is_component_char;
use crate::escape::lemma_component_concat;
use crate::escape::lemma_percent_encode_chars;
use crate::escape::push_component;
use crate::text::chars_of;
use crate::text::text_of;

verus! {

/// What the field called `name` holds: `None` where there is no such field, or where it
/// has not been given a value. Of several fields with one name the last counts.
pub open spec fn field_value(fields: Seq<ParamView>, name: Seq<char>) -> Option<Seq<char>>
    decreases fields.len(),
{
    if fields.len() == 0 {
        None
    } else if fields.last().name == name {
        fields.last().value
    } else {
        field_value(fields.drop_last(), name)
    }
}

/// Where `c` first stands in `text`; the length of `text` where it does not occur.
pub open spec fn position(text: Seq<char>, c: char) -> nat
    decreases text.len(),
{
    if text.len() == 0 {
        0
    } else if text[0] == c {
        0
    } else {
        1 + position(text.drop_first(), c)
    }
}

/// What is said of a template whose braces do not pair up.
pub open spec fn malformed_template() -> Seq<char> {
    "malformed path template"@
}

/// What is said of a placeholder whose field has no value.
pub open spec fn missing_field(name: Seq<char>) -> Seq<char> {
    "missing required field: "@ + name
}

/// `head` put in front of a path that was resolved; a failure stays as it is.
pub open spec fn prepend(head: Seq<char>, rest: Result<Seq<char>, Seq<char>>) -> Result<
    Seq<char>,
    Seq<char>,
> {
    match rest {
        Ok(tail) => Ok(head + tail),
        Err(message) => Err(message),
    }
}

/// The path that a template stands for, read from the left: a placeholder gives way
/// to the percent-encoded value of its field, `/` stays, and any other character is
/// percent-encoded. The result is `Err` with a message at the first placeholder
/// that is not closed or whose field has no value, and at a `}` that closes nothing.
pub open spec fn resolved(template: Seq<char>, fields: Seq<ParamView>) -> Result<
    Seq<char>,
    Seq<char>,
>
    decreases template.len(),
{
    if template.len() == 0 {
        Ok(Seq::empty())
    } else if template[0] == '{' {
        let inner = template.drop_first();
        let close = position(inner, '}');
        if close >= inner.len() {
            Err(malformed_template())
        } else {
            let name = inner.subrange(0, close as int);
            match field_value(fields, name) {
                None => Err(missing_field(name)),
                Some(value) => prepend(
                    component(value),
                    resolved(inner.subrange(close as int + 1, inner.len() as int), fields),
                ),
            }
        }
    } else if template[0] == '}' {
        Err(malformed_template())
    } else if template[0] == '/' {
        prepend(seq!['/'], resolved(template.drop_first(), fields))
    } else {
        prepend(component(seq![template[0]]), resolved(template.drop_first(), fields))
    }
}

/// The position of a character is within the text, and nothing before it is that
/// character.
pub proof fn lemma_position(text: Seq<char>, c: char)
    ensures
        0 <= position(text, c) <= text.len(),
        forall|i: int| 0 <= i < position(text, c) ==> text[i] != c,
        position(text, c) < text.len() ==> text[position(text, c) as int] == c,
    decreases text.len(),
{
    if text.len() > 0 && text[0] != c {
        let rest = text.drop_first();
        lemma_position(rest, c);
        assert forall|i: int| 0 <= i < position(text, c) implies text[i] != c by {
            if i > 0 {
                assert(text[i] == rest[i - 1]);
            }
        }
    }
}

/// The first place at which a character stands is its position.
pub proof fn lemma_position_is(text: Seq<char>, c: char, at: int)
    requires
        0 <= at <= text.len(),
        forall|i: int| 0 <= i < at ==> text[i] != c,
        at < text.len() ==> text[at] == c,
    ensures
        position(text, c) == at,
{
    lemma_position(text, c);
    let p = position(text, c) as int;
    if p < at {
        assert(text[p] == c);
    } else if p > at {
        assert(text[at] == c);
    }
}

/// A resolved path is made of `/`, `%` and unreserved characters, so that no brace is
/// left in it and nothing in it begins a query.
pub proof fn lemma_resolved_chars(template: Seq<char>, fields: Seq<ParamView>)
    requires
        resolved(template, fields) is Ok,
    ensures
        forall|i: int|
            0 <= i < resolved(template, fields)->Ok_0.len() ==> {
                let c = #[trigger] resolved(template, fields)->Ok_0[i];
                c == '/' || is_component_char(c)
            },
    decreases template.len(),
{
    let path = resolved(template, fields)->Ok_0;
    if template.len() == 0 {
    } else if template[0] == '{' {
        let inner = template.drop_first();
        let close = position(inner, '}');
        let name = inner.subrange(0, close as int);
        let value = field_value(fields, name)->Some_0;
        let rest = inner.subrange(close as int + 1, inner.len() as int);
        lemma_position(inner, '}');
        lemma_resolved_chars(rest, fields);
        lemma_percent_encode_chars(vstd::utf8::encode_utf8(value));
        let head = component(value);
        let tail = resolved(rest, fields)->Ok_0;
        assert(path == head + tail);
        assert forall|i: int| 0 <= i < path.len() implies {
            let c = #[trigger] path[i];
            c == '/' || is_component_char(c)
        } by {
            if i < head.len() {
                assert(path[i] == head[i]);
            } else {
                assert(path[i] == tail[i - head.len()]);
            }
        }
    } else if template[0] == '}' {
    } else {
        let rest = template.drop_first();
        lemma_resolved_chars(rest, fields);
        let head = if template[0] == '/' {
            seq!['/']
        } else {
            component(seq![template[0]])
        };
        if template[0] != '/' {
            lemma_percent_encode_chars(vstd::utf8::encode_utf8(seq![template[0]]));
        }
        let tail = resolved(rest, fields)->Ok_0;
        assert(path == head + tail);
        assert forall|i: int| 0 <= i < path.len() implies {
            let c = #[trigger] path[i];
            c == '/' || is_component_char(c)
        } by {
            if i < head.len() {
                assert(path[i] == head[i]);
            } else {
                assert(path[i] == tail[i - head.len()]);
            }
        }
    }
}

/// Whether the character is part of a template's plain text: neither a brace nor `/`.
pub open spec fn is_plain(c: char) -> bool {
    c != '{' && c != '}' && c != '/'
}

/// A stretch of plain text at the start of a template is percent-encoded as a whole:
/// what lies between two `/`, or between a `/` and a placeholder, is encoded as one
/// segment or one part of a segment.
pub proof fn lemma_resolved_run(template: Seq<char>, k: int, fields: Seq<ParamView>)
    requires
        0 <= k <= template.len(),
        forall|i: int| 0 <= i < k ==> is_plain(#[trigger] template[i]),
    ensures
        resolved(template, fields) == prepend(
            component(template.subrange(0, k)),
            resolved(template.subrange(k, template.len() as int), fields),
        ),
    decreases k,
{
    let rest = resolved(template.subrange(k, template.len() as int), fields);
    if k == 0 {
        assert(template.subrange(0, 0) =~= Seq::<char>::empty());
        assert(template.subrange(0, template.len() as int) =~= template);
        assert(vstd::utf8::encode_utf8(Seq::<char>::empty()) =~= Seq::<u8>::empty());
        assert(component(Seq::<char>::empty()) =~= Seq::<char>::empty());
        match rest {
            Ok(tail) => {
                assert(Seq::<char>::empty() + tail =~= tail);
            },
            Err(_) => {},
        }
    } else {
        let tail = template.drop_first();
        assert forall|i: int| 0 <= i < k - 1 implies is_plain(#[trigger] tail[i]) by {
            assert(tail[i] == template[i + 1]);
        }
        lemma_resolved_run(tail, k - 1, fields);
        assert(is_plain(template[0]));
        assert(tail.subrange(k - 1, tail.len() as int) =~= template.subrange(
            k,
            template.len() as int,
        ));
        lemma_component_concat(seq![template[0]], tail.subrange(0, k - 1));
        assert(seq![template[0]] + tail.subrange(0, k - 1) =~= template.subrange(0, k));
        lemma_prepend_twice(
            component(seq![template[0]]),
            component(tail.subrange(0, k - 1)),
            rest,
        );
    }
}

/// A placeholder whose field has no value makes the template fail, and the failure
/// names the field. Here the placeholder is the first of the template, and its name
/// holds no `}`.
pub proof fn lemma_missing_field_fails(
    before: Seq<char>,
    name: Seq<char>,
    after: Seq<char>,
    fields: Seq<ParamView>,
)
    requires
        forall|i: int| 0 <= i < before.len() ==> (#[trigger] before[i]) != '{' && before[i] != '}',
        forall|i: int| 0 <= i < name.len() ==> (#[trigger] name[i]) != '}',
        field_value(fields, name) is None,
    ensures
        resolved(before + seq!['{'] + name + seq!['}'] + after, fields) == Err::<
            Seq<char>,
            Seq<char>,
        >(missing_field(name)),
    decreases before.len(),
{
    let template = before + seq!['{'] + name + seq!['}'] + after;
    if before.len() == 0 {
        let inner = template.drop_first();
        assert(template[0] == '{');
        assert forall|i: int| 0 <= i < name.len() implies inner[i] != '}' by {
            assert(inner[i] == name[i]);
        }
        assert(inner[name.len() as int] == '}');
        lemma_position_is(inner, '}', name.len() as int);
        assert(inner.subrange(0, name.len() as int) =~= name);
    } else {
        let rest = before.drop_first();
        assert forall|i: int| 0 <= i < rest.len() implies (#[trigger] rest[i]) != '{' && rest[i]
            != '}' by {
            assert(rest[i] == before[i + 1]);
        }
        lemma_missing_field_fails(rest, name, after, fields);
        assert(template[0] == before[0]);
        assert(template.drop_first() =~= rest + seq!['{'] + name + seq!['}'] + after);
    }
}

/// Looks a field up by its name.
pub fn find_field<'a>(fields: &'a Vec<Param>, name: &String) -> (r: Option<&'a String>)
    ensures
        r.deep_view() == field_value(fields.deep_view(), name@),
{
    let mut i: usize = fields.len();
    assert(fields.deep_view().subrange(0, fields.len() as int) =~= fields.deep_view());
    while i > 0
        invariant
            0 <= i <= fields.len(),
            fields.deep_view().len() == fields.len(),
            field_value(fields.deep_view(), name@) == field_value(
                fields.deep_view().subrange(0, i as int),
                name@,
            ),
        decreases i,
    {
        let ghost head = fields.deep_view().subrange(0, i as int);
        i = i - 1;
        proof {
            assert(head.last() == fields[i as int].deep_view());
            assert(head.drop_last() =~= fields.deep_view().subrange(0, i as int));
        }
        if fields[i].name == *name {
            return fields[i].value.as_ref();
        }
    }
    None
}

/// Putting two heads in front, one after the other, is putting their concatenation
/// in front.
proof fn lemma_prepend_twice(a: Seq<char>, b: Seq<char>, rest: Result<Seq<char>, Seq<char>>)
    ensures
        prepend(a, prepend(b, rest)) == prepend(a + b, rest),
{
    match rest {
        Ok(tail) => {
            assert(a + (b + tail) =~= (a + b) + tail);
        },
        Err(_) => {},
    }
}

fn malformed() -> (e: ClientError)
    ensures
        e@ == (ClientErrorView::ValidationError { message: malformed_template() }),
{
    ClientError::ValidationError { message: String::from_str("malformed path template") }
}

fn missing(name: &String) -> (e: ClientError)
    ensures
        e@ == (ClientErrorView::ValidationError { message: missing_field(name@) }),
{
    let mut message = String::from_str("missing required field: ");
    message.append(name.as_str());
    ClientError::ValidationError { message }
}

/// Fills in the placeholders of a path template.
pub fn resolve(template: &str, fields: &Vec<Param>) -> (r: Result<String, ClientError>)
    ensures
        match resolved(template@, fields.deep_view()) {
            Ok(path) => r is Ok && r->Ok_0@ == path,
            Err(message) => r is Err && r->Err_0@ == (ClientErrorView::ValidationError { message }),
        },
{
    let chars = chars_of(template);
    let n = chars.len();
    let mut out = String::new();
    let mut i: usize = 0;
    proof {
        assert(template@.subrange(0, n as int) =~= template@);
        let whole = resolved(template@, fields.deep_view());
        match whole {
            Ok(tail) => {
                assert(out@ + tail =~= tail);
            },
            Err(_) => {},
        }
    }
    while i < n
        invariant
            chars@ == template@,
            n == template@.len(),
            0 <= i <= n,
            resolved(template@, fields.deep_view()) == prepend(
                out@,
                resolved(template@.subrange(i as int, n as int), fields.deep_view()),
            ),
        decreases n - i,
    {
        let c = chars[i];
        let ghost rest = template@.subrange(i as int, n as int);
        let ghost done = out@;
        proof {
            assert(rest[0] == c);
            assert(rest.drop_first() =~= template@.subrange(i + 1, n as int));
        }
        if c == '{' {
            let mut j: usize = i + 1;
            while j < n && chars[j] != '}'
                invariant
                    chars@ == template@,
                    n == template@.len(),
                    i < j <= n,
                    forall|k: int| i < k < j ==> template@[k] != '}',
                decreases n - j,
            {
                j = j + 1;
            }
            let ghost inner = rest.drop_first();
            proof {
                assert forall|k: int| 0 <= k < j - i - 1 implies inner[k] != '}' by {
                    assert(inner[k] == template@[k + i + 1]);
                }
                lemma_position_is(inner, '}', j - i - 1);
            }
            if j >= n {
                return Err(malformed());
            }
            let name = text_of(&chars, i + 1, j);
            proof {
                assert(name@ =~= inner.subrange(0, j - i - 1));
                assert(inner.subrange(j - i, inner.len() as int) =~= template@.subrange(
                    j + 1,
                    n as int,
                ));
            }
            match find_field(fields, &name) {
                None => {
                    return Err(missing(&name));
                },
                Some(value) => {
                    push_component(&mut out, value.as_str());
                    proof {
                        lemma_prepend_twice(
                            done,
                            component(value@),
                            resolved(template@.subrange(j + 1, n as int), fields.deep_view()),
                        );
                    }
                    i = j + 1;
                },
            }
        } else if c == '}' {
            return Err(malformed());
        } else if c == '/' {
            out.push('/');
            proof {
                assert(out@ =~= done + seq!['/']);
                lemma_prepend_twice(
                    done,
                    seq!['/'],
                    resolved(template@.subrange(i + 1, n as int), fields.deep_view()),
                );
            }
            i = i + 1;
        } else {
            let mut j: usize = i + 1;
            while j < n && chars[j] != '{' && chars[j] != '}' && chars[j] != '/'
                invariant
                    chars@ == template@,
                    n == template@.len(),
                    i < j <= n,
                    forall|k: int| i <= k < j ==> is_plain(#[trigger] template@[k]),
                decreases n - j,
            {
                j = j + 1;
            }
            let run = text_of(&chars, i, j);
            push_component(&mut out, run.as_str());
            proof {
                assert forall|k: int| 0 <= k < j - i implies is_plain(#[trigger] rest[k]) by {
                    assert(rest[k] == template@[k + i]);
                }
                lemma_resolved_run(rest, j - i, fields.deep_view());
                assert(rest.subrange(0, j - i) =~= run@);
                assert(rest.subrange(j - i, rest.len() as int) =~= template@.subrange(
                    j as int,
                    n as int,
                ));
                lemma_prepend_twice(
                    done,
                    component(run@),
                    resolved(template@.subrange(j as int, n as int), fields.deep_view()),
                );
            }
            i = j;
        }
    }
    proof {
        assert(template@.subrange(n as int, n as int) =~= Seq::<char>::empty());
        assert(out@ + Seq::<char>::empty() =~= out@);
    }
    Ok(out)
}

} // verus!
