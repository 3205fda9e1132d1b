//! The outbound wire codec: building the UTF-8 text frames of the protocol
//! (`INIT`, `GRID`, `CLIENT_LIST` envelopes) as JSON, with exact
//! character-level contracts. String payloads are escaped; quote and
//! backslash get a two-character escape, every other control character a
//! `\u00XX` escape.
use vstd::prelude::*;
use vstd::string::StrSliceExecFns;
use vstd::string::StringExecFns;
use crate::model::{Column, Row, GRID_DIM};

verus! {

/// Relies on `String::push`: appends the given character to the end of the
/// string.
#[verifier::external_body]
fn push_char(s: &mut String, c: char)
    ensures
        final(s)@ == old(s)@.push(c),
{
    s.push(c);
}

/// The lower-case hexadecimal digit of a value below sixteen.
pub open spec fn hex_digit(n: int) -> char {
    if n == 0 { '0' }
    else if n == 1 { '1' }
    else if n == 2 { '2' }
    else if n == 3 { '3' }
    else if n == 4 { '4' }
    else if n == 5 { '5' }
    else if n == 6 { '6' }
    else if n == 7 { '7' }
    else if n == 8 { '8' }
    else if n == 9 { '9' }
    else if n == 10 { 'a' }
    else if n == 11 { 'b' }
    else if n == 12 { 'c' }
    else if n == 13 { 'd' }
    else if n == 14 { 'e' }
    else { 'f' }
}

fn hex_digit_exec(n: usize) -> (c: char)
    requires
        n < 16,
    ensures
        c == hex_digit(n as int),
{
    if n == 0 { '0' }
    else if n == 1 { '1' }
    else if n == 2 { '2' }
    else if n == 3 { '3' }
    else if n == 4 { '4' }
    else if n == 5 { '5' }
    else if n == 6 { '6' }
    else if n == 7 { '7' }
    else if n == 8 { '8' }
    else if n == 9 { '9' }
    else if n == 10 { 'a' }
    else if n == 11 { 'b' }
    else if n == 12 { 'c' }
    else if n == 13 { 'd' }
    else if n == 14 { 'e' }
    else { 'f' }
}

/// How one character appears inside a JSON string literal.
pub open spec fn escape_char(c: char) -> Seq<char> {
    if c == '"' {
        seq!['\\', '"']
    } else if c == '\\' {
        seq!['\\', '\\']
    } else if (c as int) < 32 {
        seq!['\\', 'u', '0', '0', hex_digit((c as int) / 16), hex_digit((c as int) % 16)]
    } else {
        seq![c]
    }
}

/// The body of a JSON string literal: every character escaped in order.
pub open spec fn json_escape(s: Seq<char>) -> Seq<char>
    decreases s.len(),
{
    if s.len() == 0 {
        Seq::empty()
    } else {
        escape_char(s[0]) + json_escape(s.drop_first())
    }
}

/// A whole JSON string literal, quotes included.
pub open spec fn json_string(s: Seq<char>) -> Seq<char> {
    "\""@ + json_escape(s) + "\""@
}

proof fn lemma_json_escape_push(s: Seq<char>, c: char)
    ensures
        json_escape(s.push(c)) == json_escape(s) + escape_char(c),
    decreases s.len(),
{
    if s.len() == 0 {
        assert(s.push(c)[0] == c);
        assert(s.push(c).drop_first() =~= Seq::<char>::empty());
        assert(json_escape(Seq::<char>::empty()) == Seq::<char>::empty());
        assert(json_escape(s.push(c)) == escape_char(c) + Seq::<char>::empty());
        assert(json_escape(s) == Seq::<char>::empty());
        assert(escape_char(c) + Seq::<char>::empty() =~= Seq::<char>::empty() + escape_char(c));
    } else {
        assert(s.push(c)[0] == s[0]);
        assert(s.push(c).drop_first() =~= s.drop_first().push(c));
        lemma_json_escape_push(s.drop_first(), c);
        assert(json_escape(s.push(c)) == escape_char(s[0]) + json_escape(s.drop_first().push(c)));
        assert(json_escape(s.drop_first().push(c)) == json_escape(s.drop_first()) + escape_char(c));
        assert(json_escape(s) == escape_char(s[0]) + json_escape(s.drop_first()));
        assert(escape_char(s[0]) + (json_escape(s.drop_first()) + escape_char(c)) =~= (escape_char(
            s[0],
        ) + json_escape(s.drop_first())) + escape_char(c));
    }
}

/// Appends the escaped, quoted form of `s` to `out`.
pub fn encode_json_string(out: &mut String, s: &str)
    ensures
        final(out)@ == old(out)@ + json_string(s@),
{
    out.append("\"");
    let n = s.unicode_len();
    let mut i: usize = 0;
    while i < n
        invariant
            n == s@.len(),
            i <= n,
            out@ == old(out)@ + "\""@ + json_escape(s@.take(i as int)),
        decreases n - i,
    {
        proof {
            assert(s@.take(i as int).push(s@[i as int]) =~= s@.take(i as int + 1));
            lemma_json_escape_push(s@.take(i as int), s@[i as int]);
        }
        let c = s.get_char(i);
        if c == '"' {
            push_char(out, '\\');
            push_char(out, '"');
        } else if c == '\\' {
            push_char(out, '\\');
            push_char(out, '\\');
        } else if (c as u32) < 32 {
            push_char(out, '\\');
            push_char(out, 'u');
            push_char(out, '0');
            push_char(out, '0');
            push_char(out, hex_digit_exec(((c as u32) / 16) as usize));
            push_char(out, hex_digit_exec(((c as u32) % 16) as usize));
        } else {
            push_char(out, c);
        }
        i = i + 1;
        assert(out@ =~= old(out)@ + "\""@ + json_escape(s@.take(i as int)));
    }
    assert(s@.take(n as int) =~= s@);
    out.append("\"");
    assert(out@ =~= old(out)@ + json_string(s@));
}

/// The decimal digits of a number, most significant first.
pub open spec fn dec_rep(n: nat) -> Seq<char>
    decreases n,
{
    if n < 10 {
        seq![hex_digit(n as int)]
    } else {
        dec_rep(n / 10).push(hex_digit((n % 10) as int))
    }
}

/// Appends the decimal form of `n` to `out`.
pub fn encode_usize(out: &mut String, n: usize)
    ensures
        final(out)@ == old(out)@ + dec_rep(n as nat),
    decreases n,
{
    if n < 10 {
        push_char(out, hex_digit_exec(n));
        assert(out@ =~= old(out)@ + dec_rep(n as nat));
    } else {
        encode_usize(out, n / 10);
        push_char(out, hex_digit_exec(n % 10));
        assert(out@ =~= old(out)@ + dec_rep(n as nat));
    }
}

/// One client entry of a `CLIENT_LIST` payload.
pub open spec fn client_json(name: Seq<char>) -> Seq<char> {
    "{\"name\":"@ + json_string(name) + "}"@
}

/// The comma-separated client entries of a `CLIENT_LIST` payload.
pub open spec fn clients_json(names: Seq<Seq<char>>) -> Seq<char>
    decreases names.len(),
{
    if names.len() == 0 {
        Seq::empty()
    } else if names.len() == 1 {
        client_json(names[0])
    } else {
        client_json(names[0]) + ","@ + clients_json(names.drop_first())
    }
}

/// The full `CLIENT_LIST` wire frame for the given identities, in order.
pub open spec fn client_list_event_json(names: Seq<Seq<char>>) -> Seq<char> {
    "{\"t\":\"CLIENT_LIST\",\"data\":{\"clients\":["@ + clients_json(names) + "]}}"@
}

/// The views of a sequence of strings.
pub open spec fn views_of(ss: Seq<String>) -> Seq<Seq<char>> {
    ss.map_values(|s: String| s@)
}

proof fn lemma_clients_push(names: Seq<Seq<char>>, x: Seq<char>)
    ensures
        clients_json(names.push(x)) == if names.len() == 0 {
            client_json(x)
        } else {
            clients_json(names) + ","@ + client_json(x)
        },
    decreases names.len(),
{
    if names.len() == 0 {
        assert(names.push(x)[0] == x);
        assert(clients_json(names.push(x)) == client_json(x));
    } else if names.len() == 1 {
        assert(names.push(x)[0] == names[0]);
        assert(names.push(x).drop_first() =~= seq![x]);
        assert(clients_json(seq![x]) == client_json(x));
        assert(clients_json(names.push(x)) =~= clients_json(names) + ","@ + client_json(x));
    } else {
        assert(names.push(x)[0] == names[0]);
        assert(names.push(x).drop_first() =~= names.drop_first().push(x));
        lemma_clients_push(names.drop_first(), x);
        assert(clients_json(names.push(x)) =~= clients_json(names) + ","@ + client_json(x));
    }
}

fn encode_client(out: &mut String, name: &String)
    ensures
        final(out)@ == old(out)@ + client_json(name@),
{
    out.append("{\"name\":");
    encode_json_string(out, name.as_str());
    out.append("}");
    assert(out@ =~= old(out)@ + client_json(name@));
}

/// Builds the `CLIENT_LIST` frame announcing the given identities, in order.
pub fn encode_client_list_event(names: &Vec<String>) -> (out: String)
    ensures
        out@ == client_list_event_json(views_of(names@)),
{
    let ghost m: Seq<Seq<char>> = views_of(names@);
    let mut out = String::new();
    out.append("{\"t\":\"CLIENT_LIST\",\"data\":{\"clients\":[");
    let mut i: usize = 0;
    while i < names.len()
        invariant
            m == views_of(names@),
            m.len() == names@.len(),
            i <= names@.len(),
            out@ == "{\"t\":\"CLIENT_LIST\",\"data\":{\"clients\":["@ + clients_json(m.take(i as int)),
        decreases names@.len() - i,
    {
        proof {
            assert(m[i as int] == names@[i as int]@);
            assert(m.take(i as int).push(m[i as int]) =~= m.take(i as int + 1));
            lemma_clients_push(m.take(i as int), m[i as int]);
        }
        if i > 0 {
            out.append(",");
        }
        encode_client(&mut out, &names[i]);
        i = i + 1;
        assert(out@ =~= "{\"t\":\"CLIENT_LIST\",\"data\":{\"clients\":["@ + clients_json(m.take(i as int)));
    }
    assert(m.take(names@.len() as int) =~= m);
    out.append("]}}");
    assert(out@ =~= client_list_event_json(m));
    out
}

/// One cell of a grid payload.
pub open spec fn column_json(c: Column) -> Seq<char> {
    "{\"peer\":"@ + json_string(c.peer@) + ",\"timestamp\":"@ + dec_rep(c.timestamp as nat)
        + ",\"idx\":"@ + dec_rep(c.idx as nat) + ",\"value\":"@ + json_string(c.value@) + "}"@
}

/// One row of a grid payload.
pub open spec fn row_json(r: Row) -> Seq<char> {
    "{\"idx\":"@ + dec_rep(r.idx as nat) + ",\"columns\":["@ + column_json(r.columns@[0]) + ","@
        + column_json(r.columns@[1]) + ","@ + column_json(r.columns@[2]) + "]}"@
}

/// The rows of a grid payload.
pub open spec fn grid_json(g: Seq<Row>) -> Seq<char> {
    "["@ + row_json(g[0]) + ","@ + row_json(g[1]) + ","@ + row_json(g[2]) + "]"@
}

/// The full `GRID` wire frame: the snapshot and the sender's identity.
pub open spec fn grid_event_json(g: Seq<Row>, sender: Seq<char>) -> Seq<char> {
    "{\"t\":\"GRID\",\"data\":{\"data\":"@ + grid_json(g) + ",\"sender\":"@ + json_string(sender)
        + "}}"@
}

/// The full `INIT` wire frame: a join request under the given name.
pub open spec fn init_event_json(name: Seq<char>) -> Seq<char> {
    "{\"t\":\"INIT\",\"data\":{\"name\":"@ + json_string(name) + "}}"@
}

/// The shape every encodable grid has: `GRID_DIM` rows of `GRID_DIM` cells.
pub open spec fn grid_shape(g: Seq<Row>) -> bool {
    &&& g.len() == GRID_DIM
    &&& forall|i: int| 0 <= i < g.len() ==> (#[trigger] g[i]).columns@.len() == GRID_DIM
}

fn encode_column(out: &mut String, c: &Column)
    ensures
        final(out)@ == old(out)@ + column_json(*c),
{
    out.append("{\"peer\":");
    encode_json_string(out, c.peer.as_str());
    out.append(",\"timestamp\":");
    encode_usize(out, c.timestamp);
    out.append(",\"idx\":");
    encode_usize(out, c.idx);
    out.append(",\"value\":");
    encode_json_string(out, c.value.as_str());
    out.append("}");
    assert(out@ =~= old(out)@ + column_json(*c));
}

fn encode_row(out: &mut String, r: &Row)
    requires
        r.columns@.len() == GRID_DIM,
    ensures
        final(out)@ == old(out)@ + row_json(*r),
{
    out.append("{\"idx\":");
    encode_usize(out, r.idx);
    out.append(",\"columns\":[");
    encode_column(out, &r.columns[0]);
    out.append(",");
    encode_column(out, &r.columns[1]);
    out.append(",");
    encode_column(out, &r.columns[2]);
    out.append("]}");
    assert(out@ =~= old(out)@ + row_json(*r));
}

/// Builds the `GRID` frame carrying a full snapshot and its sender.
#[verifier::rlimit(100)]
pub fn encode_grid_event(g: &Vec<Row>, sender: &str) -> (out: String)
    requires
        grid_shape(g@),
    ensures
        out@ == grid_event_json(g@, sender@),
{
    let mut out = String::new();
    out.append("{\"t\":\"GRID\",\"data\":{\"data\":");
    out.append("[");
    encode_row(&mut out, &g[0]);
    out.append(",");
    encode_row(&mut out, &g[1]);
    out.append(",");
    encode_row(&mut out, &g[2]);
    out.append("]");
    assert(out@ =~= "{\"t\":\"GRID\",\"data\":{\"data\":"@ + grid_json(g@));
    out.append(",\"sender\":");
    assert(out@ =~= "{\"t\":\"GRID\",\"data\":{\"data\":"@ + grid_json(g@) + ",\"sender\":"@);
    encode_json_string(&mut out, sender);
    assert(out@ =~= "{\"t\":\"GRID\",\"data\":{\"data\":"@ + grid_json(g@) + ",\"sender\":"@
        + json_string(sender@));
    out.append("}}");
    assert(out@ =~= grid_event_json(g@, sender@));
    out
}

/// Builds the `INIT` frame a participant sends to join under `name`.
pub fn encode_init_event(name: &str) -> (out: String)
    ensures
        out@ == init_event_json(name@),
{
    let mut out = String::new();
    out.append("{\"t\":\"INIT\",\"data\":{\"name\":");
    encode_json_string(&mut out, name);
    out.append("}}");
    assert(out@ =~= init_event_json(name@));
    out
}

} // verus!
