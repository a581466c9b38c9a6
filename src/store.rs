//! The conversation store: conversations and their messages kept in one
//! SQLite file, read back in a verified order.

use crate::migration::{add_column_spec, pending_from, upgrade_statements};
use crate::order::{contains_text, texts_of, lemma_text_le_transitive, lemma_text_lt_irreflexive, lemma_text_lt_transitive, text_before, text_lt};
use vstd::prelude::*;

verus! {

/// A conversation thread.
#[derive(Debug)]
pub struct Conversation {
    pub id: i32,
    pub created_at: String,
}

/// One stored turn of a conversation.
#[derive(Debug)]
pub struct Message {
    pub id: i32,
    pub conversation_id: i32,
    pub role: String,
    pub content: String,
    pub input_type: String,
    pub image_path: Option<String>,
    pub image_filename: Option<String>,
    pub image_size: Option<i32>,
    pub timestamp: String,
}

/// A message row as read, before defaults are applied: rows written before
/// the `input_type` column existed hold no value there.
#[derive(Debug)]
pub struct MessageRow {
    pub id: i32,
    pub conversation_id: i32,
    pub role: String,
    pub content: String,
    pub input_type: Option<String>,
    pub image_path: Option<String>,
    pub image_filename: Option<String>,
    pub image_size: Option<i32>,
    pub timestamp: String,
}

/// A message about to be inserted.
#[derive(Debug)]
pub struct NewMessage {
    pub conversation_id: i32,
    pub role: String,
    pub content: String,
    pub input_type: String,
    pub image_path: Option<String>,
    pub image_filename: Option<String>,
    pub image_size: Option<i32>,
    pub timestamp: String,
}

/// Failures of the store.
#[derive(Debug)]
pub enum StoreError {
    /// The database refused or failed an operation.
    Sqlite(rusqlite::Error),
    /// The database assigned an identifier that does not fit in an `i32`.
    IdOutOfRange(i64),
}

#[verifier::external_type_specification]
#[verifier::external_body]
pub struct ExConnection(rusqlite::Connection);

#[verifier::external_type_specification]
#[verifier::external_body]
pub struct ExSqlError(rusqlite::Error);

/// Relies on `rusqlite::Connection::open`: opens the database file at
/// `path`, creating it if absent.
#[verifier::external_body]
fn open_connection(path: &str) -> (r: Result<rusqlite::Connection, rusqlite::Error>) {
    rusqlite::Connection::open(path)
}

/// Relies on `rusqlite::Connection::execute_batch`: runs statements that
/// take no parameters.
#[verifier::external_body]
fn run_statements(conn: &rusqlite::Connection, sql: &str) -> (r: Result<(), rusqlite::Error>) {
    conn.execute_batch(sql)
}

/// Relies on `rusqlite::Connection::execute`, with one text parameter.
#[verifier::external_body]
fn execute_with_text(conn: &rusqlite::Connection, sql: &str, value: &str) -> (r: Result<
    usize,
    rusqlite::Error,
>) {
    conn.execute(sql, (value,))
}

/// Relies on `rusqlite::Connection::execute`, with the fields of a message
/// bound in order as its eight parameters.
#[verifier::external_body]
fn execute_with_message(conn: &rusqlite::Connection, sql: &str, m: &NewMessage) -> (r: Result<
    usize,
    rusqlite::Error,
>) {
    conn.execute(
        sql,
        (
            m.conversation_id,
            m.role.as_str(),
            m.content.as_str(),
            m.input_type.as_str(),
            m.image_path.as_deref(),
            m.image_filename.as_deref(),
            m.image_size,
            m.timestamp.as_str(),
        ),
    )
}

/// Relies on `rusqlite::Connection::last_insert_rowid`: the rowid of the
/// most recent successful insert on this connection.
#[verifier::external_body]
fn last_rowid(conn: &rusqlite::Connection) -> (r: i64) {
    conn.last_insert_rowid()
}

/// Relies on `rusqlite::Connection::prepare` and `Statement::query_map`:
/// the first column of every row of a parameterless query, as text.
#[verifier::external_body]
fn query_texts(conn: &rusqlite::Connection, sql: &str) -> (r: Result<Vec<String>, rusqlite::Error>) {
    let mut stmt = conn.prepare(sql)?;
    let rows = stmt.query_map([], |row| row.get(0))?;
    rows.collect()
}

/// Relies on `rusqlite::Connection::prepare` and `Statement::query_map`:
/// the rows of a parameterless query of conversations, columns read as
/// identifier, then creation time.
#[verifier::external_body]
fn query_conversations(conn: &rusqlite::Connection, sql: &str) -> (r: Result<
    Vec<Conversation>,
    rusqlite::Error,
>) {
    let mut stmt = conn.prepare(sql)?;
    let rows = stmt.query_map([], |row| Ok(Conversation { id: row.get(0)?, created_at: row.get(1)? }))?;
    rows.collect()
}

/// Relies on `rusqlite::Connection::prepare` and `Statement::query_map`:
/// the first column, as an `i32`, of every row of a query taking one
/// integer parameter.
#[verifier::external_body]
fn query_ids(conn: &rusqlite::Connection, sql: &str, key: i32) -> (r: Result<Vec<i32>, rusqlite::Error>) {
    let mut stmt = conn.prepare(sql)?;
    let rows = stmt.query_map((key,), |row| row.get(0))?;
    rows.collect()
}

/// Relies on `rusqlite::Connection::prepare` and `Statement::query_map`:
/// the rows of a query of messages taking one integer parameter, columns
/// read in the order of `MessageRow`'s fields.
#[verifier::external_body]
fn query_message_rows(conn: &rusqlite::Connection, sql: &str, key: i32) -> (r: Result<
    Vec<MessageRow>,
    rusqlite::Error,
>) {
    let mut stmt = conn.prepare(sql)?;
    let rows = stmt.query_map((key,), |row| {
        Ok(MessageRow {
            id: row.get(0)?,
            conversation_id: row.get(1)?,
            role: row.get(2)?,
            content: row.get(3)?,
            input_type: row.get(4)?,
            image_path: row.get(5)?,
            image_filename: row.get(6)?,
            image_size: row.get(7)?,
            timestamp: row.get(8)?,
        })
    })?;
    rows.collect()
}


broadcast use vstd::seq_lib::group_to_multiset_ensures, vstd::multiset::group_multiset_properties;

/// Messages in ascending order of their timestamps.
pub open spec fn ascending_by_time(s: Seq<Message>) -> bool {
    forall|i: int, j: int|
        0 <= i < j < s.len() ==> !text_lt(#[trigger] s[j].timestamp@, #[trigger] s[i].timestamp@)
}

/// Conversations in descending order of their creation times.
pub open spec fn newest_first(s: Seq<Conversation>) -> bool {
    forall|i: int, j: int|
        0 <= i < j < s.len() ==> !text_lt(#[trigger] s[i].created_at@, #[trigger] s[j].created_at@)
}

/// A value that is ordered by a text key.
pub trait SortKey {
    spec fn sort_key(&self) -> Seq<char>;

    fn key_text(&self) -> (r: &str)
        ensures
            r@ == self.sort_key();
}

impl SortKey for Message {
    open spec fn sort_key(&self) -> Seq<char> {
        self.timestamp@
    }

    fn key_text(&self) -> (r: &str) {
        self.timestamp.as_str()
    }
}

impl SortKey for Conversation {
    open spec fn sort_key(&self) -> Seq<char> {
        self.created_at@
    }

    fn key_text(&self) -> (r: &str) {
        self.created_at.as_str()
    }
}

/// Key `a` must come before key `b`: ascending, or with `newest` descending.
pub open spec fn precedes(a: Seq<char>, b: Seq<char>, newest: bool) -> bool {
    if newest {
        text_lt(b, a)
    } else {
        text_lt(a, b)
    }
}

/// No value comes after one whose key it must precede.
pub open spec fn sorted_by_key<T: SortKey>(s: Seq<T>, newest: bool) -> bool {
    forall|i: int, j: int|
        0 <= i < j < s.len() ==> !precedes(
            #[trigger] s[j].sort_key(),
            #[trigger] s[i].sort_key(),
            newest,
        )
}

proof fn lemma_precedes_asymmetric(a: Seq<char>, b: Seq<char>, newest: bool)
    requires
        precedes(a, b, newest),
    ensures
        !precedes(b, a, newest),
{
    if precedes(b, a, newest) {
        lemma_text_lt_transitive(a, b, a);
        lemma_text_lt_irreflexive(a);
    }
}

proof fn lemma_precedes_chain(a: Seq<char>, b: Seq<char>, c: Seq<char>, newest: bool)
    requires
        !precedes(b, a, newest),
        !precedes(c, b, newest),
    ensures
        !precedes(c, a, newest),
{
    if newest {
        lemma_text_le_transitive(c, b, a);
    } else {
        lemma_text_le_transitive(a, b, c);
    }
}

fn key_precedes(a: &str, b: &str, newest: bool) -> (r: bool)
    ensures
        r == precedes(a@, b@, newest),
{
    if newest {
        text_before(b, a)
    } else {
        text_before(a, b)
    }
}

/// The same values, ordered by key: ascending, or with `newest` descending.
pub fn sort_by_key<T: SortKey>(v: Vec<T>, newest: bool) -> (r: Vec<T>)
    ensures
        sorted_by_key(r@, newest),
        r@.to_multiset() == v@.to_multiset(),
{
    let mut rest = v;
    let mut out: Vec<T> = Vec::new();
    proof {
        assert(out@.to_multiset().len() == 0);
        assert(out@.to_multiset().add(rest@.to_multiset()) =~= v@.to_multiset());
    }
    while rest.len() > 0
        invariant
            sorted_by_key(out@, newest),
            out@.to_multiset().add(rest@.to_multiset()) == v@.to_multiset(),
        decreases rest.len(),
    {
        let ghost rest_before = rest@;
        let x = rest.pop().unwrap();
        proof {
            assert(rest_before =~= rest@.push(x));
        }
        let mut p = out.len();
        while p > 0 && key_precedes(x.key_text(), out[p - 1].key_text(), newest)
            invariant
                p <= out@.len(),
                forall|k: int|
                    p <= k < out@.len() ==> precedes(
                        x.sort_key(),
                        #[trigger] out@[k].sort_key(),
                        newest,
                    ),
            decreases p,
        {
            p = p - 1;
        }
        let ghost prev = out@;
        let ghost key = x.sort_key();
        out.insert(p, x);
        proof {
            assert(out@ =~= prev.insert(p as int, x));
            assert(out@.to_multiset().add(rest@.to_multiset()) =~= v@.to_multiset());
            assert forall|i: int, j: int| 0 <= i < j < out@.len() implies !precedes(
                #[trigger] out@[j].sort_key(),
                #[trigger] out@[i].sort_key(),
                newest,
            ) by {
                if j < p {
                    assert(out@[i] == prev[i] && out@[j] == prev[j]);
                } else if j == p {
                    assert(out@[i] == prev[i]);
                    if i < p - 1 {
                        assert(!precedes(prev[p - 1].sort_key(), prev[i].sort_key(), newest));
                        lemma_precedes_chain(prev[i].sort_key(), prev[p - 1].sort_key(), key, newest);
                    }
                } else if i == p {
                    assert(out@[j] == prev[j - 1]);
                    lemma_precedes_asymmetric(key, prev[j - 1].sort_key(), newest);
                } else if i < p {
                    assert(out@[i] == prev[i] && out@[j] == prev[j - 1]);
                } else {
                    assert(out@[i] == prev[i - 1] && out@[j] == prev[j - 1]);
                }
            }
        }
    }
    proof {
        assert(rest@.to_multiset().len() == 0);
        assert(out@.to_multiset() =~= out@.to_multiset().add(rest@.to_multiset()));
    }
    out
}

/// The same messages, in ascending order of their timestamps.
pub fn sort_by_time(v: Vec<Message>) -> (r: Vec<Message>)
    ensures
        ascending_by_time(r@),
        r@.to_multiset() == v@.to_multiset(),
{
    let r = sort_by_key(v, false);
    proof {
        assert forall|i: int, j: int| 0 <= i < j < r@.len() implies !text_lt(
            #[trigger] r@[j].timestamp@,
            #[trigger] r@[i].timestamp@,
        ) by {
            assert(!precedes(r@[j].sort_key(), r@[i].sort_key(), false));
        }
    }
    r
}

/// The same conversations, most recently created first.
pub fn sort_newest_first(v: Vec<Conversation>) -> (r: Vec<Conversation>)
    ensures
        newest_first(r@),
        r@.to_multiset() == v@.to_multiset(),
{
    let r = sort_by_key(v, true);
    proof {
        assert forall|i: int, j: int| 0 <= i < j < r@.len() implies !text_lt(
            #[trigger] r@[i].created_at@,
            #[trigger] r@[j].created_at@,
        ) by {
            assert(!precedes(r@[j].sort_key(), r@[i].sort_key(), true));
        }
    }
    r
}

/// The message a row stands for: an absent `input_type` reads as `"text"`.
pub open spec fn decodes_to(row: MessageRow, m: Message) -> bool {
    &&& m.id == row.id
    &&& m.conversation_id == row.conversation_id
    &&& m.role == row.role
    &&& m.content == row.content
    &&& m.input_type@ == (match row.input_type {
        Some(t) => t@,
        None => "text"@,
    })
    &&& m.image_path == row.image_path
    &&& m.image_filename == row.image_filename
    &&& m.image_size == row.image_size
    &&& m.timestamp == row.timestamp
}

/// The message a stored row stands for.
pub fn message_from_row(row: MessageRow) -> (m: Message)
    ensures
        decodes_to(row, m),
{
    let input_type = match row.input_type {
        Some(t) => t,
        None => String::from_str("text"),
    };
    Message {
        id: row.id,
        conversation_id: row.conversation_id,
        role: row.role,
        content: row.content,
        input_type,
        image_path: row.image_path,
        image_filename: row.image_filename,
        image_size: row.image_size,
        timestamp: row.timestamp,
    }
}

/// The rows among `rows` that belong to the given conversation.
pub open spec fn rows_of(rows: Seq<MessageRow>, conversation_id: i32) -> Seq<MessageRow> {
    rows.filter(of_conversation(conversation_id))
}

/// A row belongs to the given conversation.
pub open spec fn of_conversation(conversation_id: i32) -> spec_fn(MessageRow) -> bool {
    |row: MessageRow| row.conversation_id == conversation_id
}

/// Decoding of rows, `default_type` standing in for an absent `input_type`.
pub open spec fn decoder(default_type: String) -> spec_fn(MessageRow) -> Message {
    |row: MessageRow| decode_with(row, default_type)
}

/// The messages the rows of one conversation stand for, in row order.
pub open spec fn decoded_rows(rows: Seq<MessageRow>, conversation_id: i32, default_type: String) -> Seq<
    Message,
> {
    rows_of(rows, conversation_id).map_values(decoder(default_type))
}

/// The message a row stands for, `default_type` standing in for an absent
/// `input_type`.
pub open spec fn decode_with(row: MessageRow, default_type: String) -> Message {
    Message {
        id: row.id,
        conversation_id: row.conversation_id,
        role: row.role,
        content: row.content,
        input_type: match row.input_type {
            Some(t) => t,
            None => default_type,
        },
        image_path: row.image_path,
        image_filename: row.image_filename,
        image_size: row.image_size,
        timestamp: row.timestamp,
    }
}

/// The messages of one conversation, each decoded from its row (an absent
/// `input_type` read as `"text"`), in ascending order of their timestamps:
/// every row of that conversation yields one message, and no other row
/// yields any.
pub fn arrange_messages(rows: Vec<MessageRow>, conversation_id: i32) -> (r: Vec<Message>)
    ensures
        ascending_by_time(r@),
        forall|k: int| 0 <= k < r@.len() ==> (#[trigger] r@[k]).conversation_id == conversation_id,
        exists|text: String|
            text@ == "text"@ && r@.to_multiset() == (#[trigger] decoded_rows(
                rows@,
                conversation_id,
                text,
            )).to_multiset(),
{
    let text = String::from_str("text");
    let ghost f = decoder(text);
    let ghost pick = of_conversation(conversation_id);
    let mut kept: Vec<Message> = Vec::new();
    let ghost all = rows@;
    let mut i: usize = 0;
    let n = rows.len();
    while i < n
        invariant
            n == all.len(),
            i <= n,
            rows@ == all,
            f == decoder(text),
            pick == of_conversation(conversation_id),
            kept@ == all.subrange(0, i as int).filter(pick).map_values(f),
        decreases n - i,
    {
        proof {
            assert(all.subrange(0, i + 1) =~= all.subrange(0, i as int).push(all[i as int]));
            all.subrange(0, i as int).lemma_filter_push(all[i as int], pick);
        }
        if rows[i].conversation_id == conversation_id {
            let row = MessageRow {
                id: rows[i].id,
                conversation_id: rows[i].conversation_id,
                role: rows[i].role.clone(),
                content: rows[i].content.clone(),
                input_type: match &rows[i].input_type {
                    Some(t) => Some(t.clone()),
                    None => None,
                },
                image_path: match &rows[i].image_path {
                    Some(t) => Some(t.clone()),
                    None => None,
                },
                image_filename: match &rows[i].image_filename {
                    Some(t) => Some(t.clone()),
                    None => None,
                },
                image_size: rows[i].image_size,
                timestamp: rows[i].timestamp.clone(),
            };
            proof {
                assert(row == all[i as int]);
            }
            let input_type = match row.input_type {
                Some(t) => t,
                None => text.clone(),
            };
            kept.push(
                Message {
                    id: row.id,
                    conversation_id: row.conversation_id,
                    role: row.role,
                    content: row.content,
                    input_type,
                    image_path: row.image_path,
                    image_filename: row.image_filename,
                    image_size: row.image_size,
                    timestamp: row.timestamp,
                },
            );
            proof {
                let prefix = all.subrange(0, i as int).filter(pick);
                assert(prefix.push(all[i as int]).map_values(f) =~= prefix.map_values(f).push(
                    f(all[i as int]),
                ));
            }
        }
        i = i + 1;
    }
    proof {
        assert(all.subrange(0, n as int) =~= all);
    }
    let sorted = sort_by_time(kept);
    proof {
        assert forall|k: int| 0 <= k < sorted@.len() implies (#[trigger] sorted@[k]).conversation_id
            == conversation_id by {
            assert(sorted@.to_multiset().count(sorted@[k]) > 0);
            assert(kept@.contains(sorted@[k]));
            let q = choose|q: int| 0 <= q < kept@.len() && kept@[q] == sorted@[k];
            all.lemma_filter_pred(pick, q);
        }
        assert(kept@ == decoded_rows(all, conversation_id, text));
    }
    sorted
}

/// The messages of a conversation from the rows read for it: none where
/// the conversation was never created, even if rows carry its identifier;
/// otherwise as `arrange_messages` gives them.
pub fn messages_of(known: bool, rows: Vec<MessageRow>, conversation_id: i32) -> (r: Vec<Message>)
    ensures
        !known ==> r@.len() == 0,
        known ==> ascending_by_time(r@),
        forall|k: int| 0 <= k < r@.len() ==> (#[trigger] r@[k]).conversation_id == conversation_id,
        known ==> exists|text: String|
            text@ == "text"@ && r@.to_multiset() == (#[trigger] decoded_rows(
                rows@,
                conversation_id,
                text,
            )).to_multiset(),
{
    if known {
        arrange_messages(rows, conversation_id)
    } else {
        Vec::new()
    }
}

/// The files that no stored message refers to.
pub open spec fn orphans(files: Seq<String>, referenced: Seq<String>) -> Seq<String> {
    files.filter(unreferenced(referenced))
}

/// A file whose path is not among `referenced`.
pub open spec fn unreferenced(referenced: Seq<String>) -> spec_fn(String) -> bool {
    |f: String| !texts_of(referenced).contains(f@)
}

/// The files among `files` whose paths no message refers to: those a
/// cleanup removes.
pub fn orphaned_files(referenced: &Vec<String>, files: &Vec<String>) -> (r: Vec<String>)
    ensures
        r@ == orphans(files@, referenced@),
{
    let ghost pred = unreferenced(referenced@);
    let mut r: Vec<String> = Vec::new();
    let mut i: usize = 0;
    while i < files.len()
        invariant
            i <= files@.len(),
            pred == unreferenced(referenced@),
            r@ == files@.subrange(0, i as int).filter(pred),
        decreases files.len() - i,
    {
        let name = files[i].as_str();
        let used = contains_text(referenced, name);
        proof {
            assert(name@ == files@[i as int]@);
            assert(used == texts_of(referenced@).contains(files@[i as int]@));
            assert(files@.subrange(0, i + 1) =~= files@.subrange(0, i as int).push(files@[i as int]));
            files@.subrange(0, i as int).lemma_filter_push(files@[i as int], pred);
            assert(pred(files@[i as int]) == !used);
        }
        if !used {
            r.push(files[i].clone());
        }
        i = i + 1;
    }
    proof {
        assert(files@.subrange(0, files@.len() as int) =~= files@);
    }
    r
}

/// After a cleanup removes the orphans, the files left are exactly those
/// present that some message refers to; a referenced path that is not on
/// disk stays absent.
pub proof fn lemma_cleanup_leaves_referenced(files: Seq<String>, referenced: Seq<String>)
    ensures
        forall|f: String|
            (files.contains(f) && !#[trigger] orphans(files, referenced).contains(f)) <==> (
            files.contains(f) && texts_of(referenced).contains(f@)),
{
    let pred = unreferenced(referenced);
    assert forall|f: String|
        (files.contains(f) && !#[trigger] orphans(files, referenced).contains(f)) <==> (
        files.contains(f) && texts_of(referenced).contains(f@)) by {
        if files.contains(f) {
            if pred(f) {
                let j = choose|j: int| 0 <= j < files.len() && files[j] == f;
                files.lemma_filter_contains(pred, j);
            }
            if orphans(files, referenced).contains(f) {
                let k = choose|k: int|
                    0 <= k < orphans(files, referenced).len() && orphans(files, referenced)[k] == f;
                files.lemma_filter_pred(pred, k);
            }
        }
    }
}

/// The row of a text message: type `"text"`, no image fields.
pub fn text_message(conversation_id: i32, role: &str, content: &str, timestamp: &str) -> (r:
    NewMessage)
    ensures
        r.conversation_id == conversation_id,
        r.role@ == role@,
        r.content@ == content@,
        r.input_type@ == "text"@,
        r.image_path is None,
        r.image_filename is None,
        r.image_size is None,
        r.timestamp@ == timestamp@,
{
    NewMessage {
        conversation_id,
        role: String::from_str(role),
        content: String::from_str(content),
        input_type: String::from_str("text"),
        image_path: None,
        image_filename: None,
        image_size: None,
        timestamp: String::from_str(timestamp),
    }
}

/// The text of an optional field.
fn owned_text(t: Option<&str>) -> (r: Option<String>)
    ensures
        r matches Some(s) <==> t is Some,
        r matches Some(s) ==> s@ == t.unwrap()@,
{
    match t {
        Some(v) => Some(String::from_str(v)),
        None => None,
    }
}

/// The row of a message that may carry an image: every field as given.
pub fn image_message(
    conversation_id: i32,
    role: &str,
    content: &str,
    input_type: &str,
    image_path: Option<&str>,
    image_filename: Option<&str>,
    image_size: Option<i32>,
    timestamp: &str,
) -> (r: NewMessage)
    ensures
        r.conversation_id == conversation_id,
        r.role@ == role@,
        r.content@ == content@,
        r.input_type@ == input_type@,
        r.image_path is Some <==> image_path is Some,
        r.image_path matches Some(p) ==> p@ == image_path.unwrap()@,
        r.image_filename is Some <==> image_filename is Some,
        r.image_filename matches Some(f) ==> f@ == image_filename.unwrap()@,
        r.image_size == image_size,
        r.timestamp@ == timestamp@,
{
    NewMessage {
        conversation_id,
        role: String::from_str(role),
        content: String::from_str(content),
        input_type: String::from_str(input_type),
        image_path: owned_text(image_path),
        image_filename: owned_text(image_filename),
        image_size,
        timestamp: String::from_str(timestamp),
    }
}

/// The identifier of a new conversation from the rowid the database gave
/// it; one beyond the range of `i32` is an error, never truncated.
pub fn conversation_id_of(rowid: i64) -> (r: Result<i32, StoreError>)
    ensures
        i32::MIN <= rowid <= i32::MAX ==> r == Ok::<i32, StoreError>(rowid as i32),
        !(i32::MIN <= rowid <= i32::MAX) ==> (r matches Err(StoreError::IdOutOfRange(v)) && v == rowid),
{
    if i32::MIN as i64 <= rowid && rowid <= i32::MAX as i64 {
        Ok(rowid as i32)
    } else {
        Err(StoreError::IdOutOfRange(rowid))
    }
}

/// Wraps a database failure.
fn sql_failed<T>(r: Result<T, rusqlite::Error>) -> (out: Result<T, StoreError>)
    ensures
        r is Ok <==> out is Ok,
        out matches Err(e) ==> e is Sqlite,
{
    match r {
        Ok(v) => Ok(v),
        Err(e) => Err(StoreError::Sqlite(e)),
    }
}

pub const CREATE_CONVERSATIONS: &'static str = "CREATE TABLE IF NOT EXISTS conversations (
    id INTEGER PRIMARY KEY AUTOINCREMENT,
    created_at TEXT NOT NULL
)";

pub const CREATE_MESSAGES: &'static str = "CREATE TABLE IF NOT EXISTS messages (
    id INTEGER PRIMARY KEY AUTOINCREMENT,
    conversation_id INTEGER,
    role TEXT NOT NULL,
    content TEXT NOT NULL,
    input_type TEXT NOT NULL DEFAULT 'text',
    image_path TEXT,
    image_filename TEXT,
    image_size INTEGER,
    timestamp TEXT NOT NULL,
    FOREIGN KEY (conversation_id) REFERENCES conversations(id)
)";

const MESSAGE_COLUMNS: &'static str = "SELECT name FROM pragma_table_info('messages')";

const INSERT_CONVERSATION: &'static str = "INSERT INTO conversations (created_at) VALUES (?1)";

const INSERT_MESSAGE: &'static str = "INSERT INTO messages (conversation_id, role, content, input_type, image_path, image_filename, image_size, timestamp) VALUES (?1, ?2, ?3, ?4, ?5, ?6, ?7, ?8)";

const SELECT_CONVERSATIONS: &'static str = "SELECT id, created_at FROM conversations ORDER BY created_at DESC";

const SELECT_MESSAGES: &'static str = "SELECT id, conversation_id, role, content, input_type, image_path, image_filename, image_size, timestamp FROM messages WHERE conversation_id = ?1 ORDER BY timestamp ASC";

const SELECT_CONVERSATION: &'static str = "SELECT id FROM conversations WHERE id = ?1";

const SELECT_IMAGE_PATHS: &'static str = "SELECT DISTINCT image_path FROM messages WHERE image_path IS NOT NULL";

/// Statements that set up the schema of a file whose message table
/// reported the columns `found` once both tables existed: the two table
/// creations, then one addition per missing optional column.
pub open spec fn schema_plan(found: Seq<Seq<char>>) -> Seq<Seq<char>> {
    seq![CREATE_CONVERSATIONS@, CREATE_MESSAGES@] + pending_from(found, 0).map_values(
        |i: usize| add_column_spec(i as int),
    )
}

/// The store: one open database file.
pub struct Database {
    conn: rusqlite::Connection,
    applied: Ghost<Seq<Seq<char>>>,
    found: Ghost<Seq<Seq<char>>>,
}

impl Database {
    /// The schema statements that ran, each successfully, when this store
    /// was opened.
    pub closed spec fn applied(&self) -> Seq<Seq<char>> {
        self.applied@
    }

    /// The message table's columns as the file reported them then.
    pub closed spec fn found_columns(&self) -> Seq<Seq<char>> {
        self.found@
    }

    /// Opens (creating if absent) the database file at `db_path` and brings
    /// its schema up to date; a file already up to date gets only the two
    /// `CREATE TABLE IF NOT EXISTS` statements, which change nothing.
    pub fn new(db_path: &str) -> (r: Result<Database, StoreError>)
        ensures
            r matches Ok(db) ==> db.applied() == schema_plan(db.found_columns()),
            r matches Err(e) ==> e is Sqlite,
    {
        let conn = sql_failed(open_connection(db_path))?;
        let db = Database { conn, applied: Ghost(Seq::empty()), found: Ghost(Seq::empty()) };
        let done = db.init_tables()?;
        Ok(Database { conn: db.conn, applied: Ghost(done@.0), found: Ghost(done@.1) })
    }

    /// Creates the tables that are missing, then adds the optional message
    /// columns that the file lacks, each once; any failure, an addition's
    /// included, is reported. On success, returns the statements run and
    /// the columns the message table reported.
    fn init_tables(&self) -> (r: Result<Ghost<(Seq<Seq<char>>, Seq<Seq<char>>)>, StoreError>)
        ensures
            r matches Ok(g) ==> g@.0 == schema_plan(g@.1),
            r matches Err(e) ==> e is Sqlite,
    {
        let ghost mut log: Seq<Seq<char>> = Seq::empty();
        sql_failed(run_statements(&self.conn, CREATE_CONVERSATIONS))?;
        proof {
            log = log.push(CREATE_CONVERSATIONS@);
        }
        sql_failed(run_statements(&self.conn, CREATE_MESSAGES))?;
        proof {
            log = log.push(CREATE_MESSAGES@);
        }
        let existing = sql_failed(query_texts(&self.conn, MESSAGE_COLUMNS))?;
        let ghost found = texts_of(existing@);
        let ghost p = pending_from(found, 0);
        let statements = upgrade_statements(&existing);
        let mut k: usize = 0;
        while k < statements.len()
            invariant
                k <= statements@.len(),
                statements@.len() == p.len(),
                forall|j: int|
                    0 <= j < statements@.len() ==> (#[trigger] statements@[j])@ == add_column_spec(
                        p[j] as int,
                    ),
                log.len() == 2 + k,
                log[0] == CREATE_CONVERSATIONS@,
                log[1] == CREATE_MESSAGES@,
                forall|j: int| 0 <= j < k ==> #[trigger] log[2 + j] == add_column_spec(p[j] as int),
            decreases statements.len() - k,
        {
            sql_failed(run_statements(&self.conn, statements[k].as_str()))?;
            proof {
                log = log.push(statements@[k as int]@);
                assert(log[2 + k] == add_column_spec(p[k as int] as int));
            }
            k = k + 1;
        }
        proof {
            assert forall|j: int| 0 <= j < log.len() implies log[j] == schema_plan(found)[j] by {
                if j >= 2 {
                    assert(log[2 + (j - 2)] == add_column_spec(p[j - 2] as int));
                }
            }
            assert(log =~= schema_plan(found));
        }
        Ok(Ghost((log, found)))
    }

    /// Inserts a conversation created at `created_at` and returns its
    /// identifier.
    pub fn create_conversation(&self, created_at: &str) -> (r: Result<i32, StoreError>)
        ensures
            r matches Err(StoreError::IdOutOfRange(v)) ==> !(i32::MIN <= v <= i32::MAX),
    {
        sql_failed(execute_with_text(&self.conn, INSERT_CONVERSATION, created_at))?;
        conversation_id_of(last_rowid(&self.conn))
    }

    /// Inserts a row, reporting only whether it was written.
    fn insert_message(&self, m: &NewMessage) -> (r: Result<(), StoreError>) {
        sql_failed(execute_with_message(&self.conn, INSERT_MESSAGE, m))?;
        Ok(())
    }

    /// Inserts a text message: type `"text"`, no image fields.
    pub fn save_message(&self, conversation_id: i32, role: &str, content: &str, timestamp: &str) -> (r: Result<(), StoreError>) {
        self.insert_message(&text_message(conversation_id, role, content, timestamp))
    }

    /// Inserts a message with the given type and optional image fields.
    pub fn save_message_with_image(
        &self,
        conversation_id: i32,
        role: &str,
        content: &str,
        input_type: &str,
        image_path: Option<&str>,
        image_filename: Option<&str>,
        image_size: Option<i32>,
        timestamp: &str,
    ) -> (r: Result<(), StoreError>) {
        self.insert_message(
            &image_message(
                conversation_id,
                role,
                content,
                input_type,
                image_path,
                image_filename,
                image_size,
                timestamp,
            ),
        )
    }

    /// All conversations, most recently created first; none is an empty
    /// list.
    pub fn get_conversations(&self) -> (r: Result<Vec<Conversation>, StoreError>)
        ensures
            r matches Ok(v) ==> newest_first(v@),
    {
        let rows = sql_failed(query_conversations(&self.conn, SELECT_CONVERSATIONS))?;
        Ok(sort_newest_first(rows))
    }

    /// The messages of a conversation in ascending order of timestamp; a
    /// conversation that was never created has none.
    pub fn get_messages(&self, conversation_id: i32) -> (r: Result<Vec<Message>, StoreError>)
        ensures
            r matches Ok(v) ==> ascending_by_time(v@) && forall|k: int|
                0 <= k < v@.len() ==> (#[trigger] v@[k]).conversation_id == conversation_id,
    {
        let ids = sql_failed(query_ids(&self.conn, SELECT_CONVERSATION, conversation_id))?;
        if ids.len() == 0 {
            return Ok(messages_of(false, Vec::new(), conversation_id));
        }
        let rows = sql_failed(query_message_rows(&self.conn, SELECT_MESSAGES, conversation_id))?;
        Ok(messages_of(true, rows, conversation_id))
    }

    /// Of the image files found on disk, those that no message refers to:
    /// the files a cleanup deletes.
    pub fn cleanup_orphaned_images(&self, files: &Vec<String>) -> (r: Result<Vec<String>, StoreError>)
        ensures
            r matches Ok(v) ==> forall|k: int| 0 <= k < v@.len() ==> files@.contains(#[trigger] v@[k]),
    {
        let referenced = sql_failed(query_texts(&self.conn, SELECT_IMAGE_PATHS))?;
        let doomed = orphaned_files(&referenced, files);
        proof {
            assert forall|k: int| 0 <= k < doomed@.len() implies files@.contains(#[trigger] doomed@[k]) by {
                files@.lemma_filter_contains_rev(unreferenced(referenced@), doomed@[k]);
            }
        }
        Ok(doomed)
    }
}

} // verus!
