use vstd::prelude::*;
use crate::error::{MizeError, MizeResult, texts};
use crate::value::{Cbor, CborValue, model, models, entry_models, lemma_models, lemma_entry_models};
use crate::item::{ItemData, last_with_key};
use crate::id::MizeId;

verus! {

broadcast use vstd::std_specs::vec::group_vec_axioms;

// The keys of the fields of a message.
pub const MSG_CMD: i128 = 1;
pub const MSG_ID: i128 = 2;
pub const MSG_DATA: i128 = 3;

// The numbers of the commands.
pub const CMD_GET: i128 = 1;
pub const CMD_UPDATE: i128 = 2;
pub const CMD_GIVE: i128 = 3;
pub const CMD_CREATE: i128 = 4;
pub const CMD_CREATE_REPLY: i128 = 5;
pub const CMD_UPDATE_REQUEST: i128 = 6;
pub const CMD_GET_SUB: i128 = 7;
pub const CMD_SUB: i128 = 8;

/// The command of a message.
#[derive(Debug, Clone, Copy, PartialEq, Eq, Structural)]
pub enum MessageCmd {
    Get,
    Update,
    Give,
    Create,
    CreateReply,
    UpdateRequest,
    GetSub,
    Sub,
}

/// A message between instances: a CBOR mapping from field keys to fields,
/// and the connection it came in on or goes out on.
#[derive(Debug)]
pub struct MizeMessage {
    value: CborValue,
    pub conn_id: u64,
}

pub struct MessageView {
    pub value: Cbor,
    pub conn_id: u64,
}

impl View for MizeMessage {
    type V = MessageView;

    closed spec fn view(&self) -> MessageView {
        MessageView { value: self.value@, conn_id: self.conn_id }
    }
}

pub open spec fn cmd_number(c: MessageCmd) -> int {
    match c {
        MessageCmd::Get => 1,
        MessageCmd::Update => 2,
        MessageCmd::Give => 3,
        MessageCmd::Create => 4,
        MessageCmd::CreateReply => 5,
        MessageCmd::UpdateRequest => 6,
        MessageCmd::GetSub => 7,
        MessageCmd::Sub => 8,
    }
}

pub open spec fn cmd_of_number(n: int) -> Option<MessageCmd> {
    if n == 1 {
        Some(MessageCmd::Get)
    } else if n == 2 {
        Some(MessageCmd::Update)
    } else if n == 3 {
        Some(MessageCmd::Give)
    } else if n == 4 {
        Some(MessageCmd::Create)
    } else if n == 5 {
        Some(MessageCmd::CreateReply)
    } else if n == 6 {
        Some(MessageCmd::UpdateRequest)
    } else if n == 7 {
        Some(MessageCmd::GetSub)
    } else if n == 8 {
        Some(MessageCmd::Sub)
    } else {
        None
    }
}

/// An id path as the array of its texts.
pub open spec fn id_value(path: Seq<Seq<char>>) -> Cbor {
    Cbor::Array(Seq::new(path.len(), |i: int| Cbor::Text(path[i])))
}

/// The value of a message with command number `cmd`, and the id and data
/// fields where they are given.
pub open spec fn message_value(cmd: int, id: Option<Seq<Seq<char>>>, data: Option<Cbor>) -> Cbor {
    let c = seq![(Cbor::Integer(MSG_CMD as int), Cbor::Integer(cmd))];
    let i = match id {
        Some(p) => seq![(Cbor::Integer(MSG_ID as int), id_value(p))],
        None => Seq::empty(),
    };
    let d = match data {
        Some(x) => seq![(Cbor::Integer(MSG_DATA as int), x)],
        None => Seq::empty(),
    };
    Cbor::Mapping(c + i + d)
}

/// The integer value of the last entry keyed by the integer `k` whose value
/// is an integer.
pub open spec fn last_int_for_key(m: Seq<(Cbor, Cbor)>, k: int) -> Option<int>
    decreases m.len(),
{
    if m.len() == 0 {
        None
    } else if m.last().0 == Cbor::Integer(k) && m.last().1 is Integer {
        Some(m.last().1->Integer_0)
    } else {
        last_int_for_key(m.drop_last(), k)
    }
}

/// The command of a message value.
pub open spec fn cmd_spec(v: Cbor) -> Option<MessageCmd> {
    match v {
        Cbor::Mapping(m) => match last_int_for_key(m, MSG_CMD as int) {
            Some(n) => cmd_of_number(n),
            None => None,
        },
        _ => None,
    }
}

/// Whether every element is a text.
pub open spec fn all_texts(a: Seq<Cbor>) -> bool {
    forall|i: int| 0 <= i < a.len() ==> #[trigger] a[i] is Text
}

/// The id path of a message value: the last id field, which must be an
/// array of texts.
pub open spec fn id_spec(v: Cbor) -> Option<Seq<Seq<char>>> {
    match v {
        Cbor::Mapping(m) => match last_with_key(m, Cbor::Integer(MSG_ID as int)) {
            Some(Cbor::Array(a)) => if all_texts(a) {
                Some(Seq::new(a.len(), |i: int| a[i]->Text_0))
            } else {
                None
            },
            _ => None,
        },
        _ => None,
    }
}

/// The data of a message value: the last data field.
pub open spec fn data_spec(v: Cbor) -> Option<Cbor> {
    match v {
        Cbor::Mapping(m) => last_with_key(m, Cbor::Integer(MSG_DATA as int)),
        _ => None,
    }
}

fn id_array(id: &MizeId) -> (r: CborValue)
    ensures
        r@ == id_value(id@.path),
{
    let mut a: Vec<CborValue> = Vec::new();
    let mut i: usize = 0;
    while i < id.path.len()
        invariant
            i <= id.path@.len(),
            a@.len() == i,
            forall|j: int| 0 <= j < i ==> #[trigger] a@[j]@ == Cbor::Text(id.path@[j]@),
        decreases id.path@.len() - i,
    {
        a.push(CborValue::Text(id.path[i].clone()));
        i = i + 1;
    }
    proof {
        lemma_models(a@);
        assert forall|j: int| 0 <= j < a@.len() implies #[trigger] models(a@)[j] == Cbor::Text(
            id@.path[j],
        ) by {
            assert(models(a@)[j] == model(a@[j]));
            assert(a@[j]@ == Cbor::Text(id.path@[j]@));
        }
        assert(models(a@) =~= Seq::new(id@.path.len(), |i: int| Cbor::Text(id@.path[i])));
    }
    CborValue::Array(a)
}

fn int_value(n: i128) -> (r: CborValue)
    ensures
        r@ == Cbor::Integer(n as int),
{
    CborValue::Integer(n)
}

fn build_message(cmd: i128, id: Option<&MizeId>, data: Option<ItemData>, conn_id: u64) -> (r:
    MizeMessage)
    ensures
        r@.conn_id == conn_id,
        r@.value == message_value(
            cmd as int,
            match id {
                Some(i) => Some(i@.path),
                None => None,
            },
            match data {
                Some(d) => Some(d@),
                None => None,
            },
        ),
{
    let mut entries: Vec<(CborValue, CborValue)> = Vec::new();
    entries.push((int_value(MSG_CMD), int_value(cmd)));
    let ghost c = seq![(Cbor::Integer(MSG_CMD as int), Cbor::Integer(cmd as int))];
    proof {
        lemma_entry_models(entries@);
        assert(entry_models(entries@) =~= c);
    }
    let ghost e1 = entry_models(entries@);
    match id {
        Some(i) => {
            let ghost before = entries@;
            entries.push((int_value(MSG_ID), id_array(i)));
            proof {
                lemma_entry_models(entries@);
                lemma_entry_models(before);
                assert(entry_models(entries@) =~= c + seq![
                    (Cbor::Integer(MSG_ID as int), id_value(i@.path)),
                ]);
            }
        },
        None => {
            assert(entry_models(entries@) =~= c + Seq::<(Cbor, Cbor)>::empty());
        },
    }
    let ghost e2 = entry_models(entries@);
    match data {
        Some(d) => {
            let ghost before = entries@;
            entries.push((int_value(MSG_DATA), d.0));
            proof {
                lemma_entry_models(entries@);
                lemma_entry_models(before);
                assert(entry_models(entries@) =~= e2 + seq![(Cbor::Integer(MSG_DATA as int), d@)]);
            }
        },
        None => {
            assert(entry_models(entries@) =~= e2 + Seq::<(Cbor, Cbor)>::empty());
        },
    }
    MizeMessage { value: CborValue::Mapping(entries), conn_id }
}

/// The index of the last entry of `m` keyed by the integer `k`.
fn find_last_int_key(m: &Vec<(CborValue, CborValue)>, k: i128) -> (r: Option<usize>)
    ensures
        match r {
            Some(i) => i < m@.len() && last_with_key(entry_models(m@), Cbor::Integer(k as int))
                == Some(model(m@[i as int].1)),
            None => last_with_key(entry_models(m@), Cbor::Integer(k as int)) is None,
        },
{
    let mut found: Option<usize> = None;
    let mut i: usize = 0;
    assert(m@.take(0) =~= Seq::<(CborValue, CborValue)>::empty());
    while i < m.len()
        invariant
            i <= m.len(),
            match found {
                Some(j) => j < i && last_with_key(
                    entry_models(m@.take(i as int)),
                    Cbor::Integer(k as int),
                ) == Some(model(m@[j as int].1)),
                None => last_with_key(entry_models(m@.take(i as int)), Cbor::Integer(k as int)) is None,
            },
        decreases m.len() - i,
    {
        proof {
            assert(m@.take(i + 1).drop_last() =~= m@.take(i as int));
            let em = entry_models(m@.take(i as int));
            let x = (model(m@[i as int].0), model(m@[i as int].1));
            assert(em.push(x).drop_last() =~= em);
        }
        match &m[i].0 {
            CborValue::Integer(n) => {
                if *n == k {
                    found = Some(i);
                }
            },
            _ => {},
        }
        i = i + 1;
    }
    assert(m@.take(m@.len() as int) =~= m@);
    found
}

/// The value of the last integer entry keyed by the integer `k`.
fn find_last_int_for_key(m: &Vec<(CborValue, CborValue)>, k: i128) -> (r: Option<i128>)
    ensures
        match r {
            Some(v) => last_int_for_key(entry_models(m@), k as int) == Some(v as int),
            None => last_int_for_key(entry_models(m@), k as int) is None,
        },
{
    let mut found: Option<i128> = None;
    let mut i: usize = 0;
    assert(m@.take(0) =~= Seq::<(CborValue, CborValue)>::empty());
    while i < m.len()
        invariant
            i <= m.len(),
            match found {
                Some(v) => last_int_for_key(entry_models(m@.take(i as int)), k as int) == Some(
                    v as int,
                ),
                None => last_int_for_key(entry_models(m@.take(i as int)), k as int) is None,
            },
        decreases m.len() - i,
    {
        proof {
            assert(m@.take(i + 1).drop_last() =~= m@.take(i as int));
            let em = entry_models(m@.take(i as int));
            let x = (model(m@[i as int].0), model(m@[i as int].1));
            assert(em.push(x).drop_last() =~= em);
        }
        match (&m[i].0, &m[i].1) {
            (CborValue::Integer(n), CborValue::Integer(v)) => {
                if *n == k {
                    found = Some(*v);
                }
            },
            _ => {},
        }
        i = i + 1;
    }
    assert(m@.take(m@.len() as int) =~= m@);
    found
}

/// The name of a command, as a description of a message writes it.
pub open spec fn cmd_name_spec(c: MessageCmd) -> Seq<char> {
    match c {
        MessageCmd::Get => "Get"@,
        MessageCmd::Update => "Update"@,
        MessageCmd::Give => "Give"@,
        MessageCmd::Create => "Create"@,
        MessageCmd::CreateReply => "CreateReply"@,
        MessageCmd::UpdateRequest => "UpdateRequest"@,
        MessageCmd::GetSub => "GetSub"@,
        MessageCmd::Sub => "Sub"@,
    }
}

fn cmd_name(c: MessageCmd) -> (r: &'static str)
    ensures
        r@ == cmd_name_spec(c),
{
    match c {
        MessageCmd::Get => "Get",
        MessageCmd::Update => "Update",
        MessageCmd::Give => "Give",
        MessageCmd::Create => "Create",
        MessageCmd::CreateReply => "CreateReply",
        MessageCmd::UpdateRequest => "UpdateRequest",
        MessageCmd::GetSub => "GetSub",
        MessageCmd::Sub => "Sub",
    }
}

/// The description of a message: a line with its command, a line with its
/// id, then its data; where the command cannot be read or the data cannot
/// be written, the whole message follows.  `quoted_id` is the id's steps
/// joined by `/` and written as a quoted text, `data_json` the data written
/// as JSON (`None` where writing it failed), `full_json` the whole message
/// written as JSON.
pub open spec fn describe_spec(
    m: MessageView,
    quoted_id: Seq<char>,
    data_json: Option<Seq<char>>,
    full_json: Seq<char>,
) -> Seq<char> {
    let cmd_line = match cmd_spec(m.value) {
        Some(c) => "MizeMessage with cmd: "@ + cmd_name_spec(c) + "\n"@,
        None => "MizeMessage with unparsable cmd\n"@,
    };
    let id_line = if id_spec(m.value) is Some {
        "\tid: "@ + quoted_id + "\n"@
    } else {
        "\t msg has no id\n"@
    };
    let data_part = if data_spec(m.value) is Some {
        match data_json {
            Some(j) => "\tdata: "@ + j,
            None => "\tdata: serialize err: Error\n"@,
        }
    } else {
        "\t msg has no data\n"@
    };
    let failed = cmd_spec(m.value) is None || (data_spec(m.value) is Some && data_json is None);
    cmd_line + id_line + data_part + if failed {
        "Full msg: "@ + full_json
    } else {
        Seq::empty()
    }
}

impl MizeMessage {
    /// The description of this message (see `describe_spec`), from the
    /// texts that its id, its data and the whole of it are written as.
    pub fn describe(&self, quoted_id: &str, data_json: Option<&str>, full_json: &str) -> (r: String)
        ensures
            r@ == describe_spec(
                self@,
                quoted_id@,
                match data_json {
                    Some(j) => Some(j@),
                    None => None,
                },
                full_json@,
            ),
    {
        let ghost dj = match data_json {
            Some(j) => Some(j@),
            None => None,
        };
        let mut out = String::new();
        let mut failed = false;
        match self.cmd() {
            Ok(c) => {
                out.append("MizeMessage with cmd: ");
                out.append(cmd_name(c));
                out.append("\n");
            },
            Err(_) => {
                out.append("MizeMessage with unparsable cmd\n");
                failed = true;
            },
        }
        match self.id_str() {
            Ok(_) => {
                out.append("\tid: ");
                out.append(quoted_id);
                out.append("\n");
            },
            Err(_) => {
                out.append("\t msg has no id\n");
            },
        }
        match self.data() {
            Ok(_) => match data_json {
                Some(j) => {
                    out.append("\tdata: ");
                    out.append(j);
                },
                None => {
                    out.append("\tdata: serialize err: Error\n");
                    failed = true;
                },
            },
            Err(_) => {
                out.append("\t msg has no data\n");
            },
        }
        if failed {
            out.append("Full msg: ");
            out.append(full_json);
        }
        proof {
            let sp = describe_spec(self@, quoted_id@, dj, full_json@);
            assert(out@ =~= sp);
        }
        out
    }

    pub fn new(value: CborValue, conn_id: u64) -> (r: MizeMessage)
        ensures
            r@.value == value@,
            r@.conn_id == conn_id,
    {
        MizeMessage { value, conn_id }
    }

    /// Asks for the data of `id`.
    pub fn new_get(id: MizeId, conn_id: u64) -> (r: MizeMessage)
        ensures
            r@.value == message_value(CMD_GET as int, Some(id@.path), None),
            r@.conn_id == conn_id,
    {
        build_message(CMD_GET, Some(&id), None, conn_id)
    }

    /// Asks for the data of `id` and for its updates.
    pub fn new_get_sub(id: MizeId, conn_id: u64) -> (r: MizeMessage)
        ensures
            r@.value == message_value(CMD_GET_SUB as int, Some(id@.path), None),
            r@.conn_id == conn_id,
    {
        build_message(CMD_GET_SUB, Some(&id), None, conn_id)
    }

    /// Asks for the updates of `id`.
    pub fn new_sub(id: MizeId, conn_id: u64) -> (r: MizeMessage)
        ensures
            r@.value == message_value(CMD_SUB as int, Some(id@.path), None),
            r@.conn_id == conn_id,
    {
        build_message(CMD_SUB, Some(&id), None, conn_id)
    }

    /// Asks for a new item.
    pub fn new_create(conn_id: u64) -> (r: MizeMessage)
        ensures
            r@.value == message_value(CMD_CREATE as int, None, None),
            r@.conn_id == conn_id,
    {
        build_message(CMD_CREATE, None, None, conn_id)
    }

    /// Answers a create message with the id of the new item.
    pub fn new_create_reply(id: MizeId, conn_id: u64) -> (r: MizeMessage)
        ensures
            r@.value == message_value(CMD_CREATE_REPLY as int, Some(id@.path), None),
            r@.conn_id == conn_id,
    {
        build_message(CMD_CREATE_REPLY, Some(&id), None, conn_id)
    }

    /// Gives the data of `id`.
    pub fn new_give(id: MizeId, data: ItemData, conn_id: u64) -> (r: MizeMessage)
        ensures
            r@.value == message_value(CMD_GIVE as int, Some(id@.path), Some(data@)),
            r@.conn_id == conn_id,
    {
        build_message(CMD_GIVE, Some(&id), Some(data), conn_id)
    }

    /// Asks the owner of `id` to set its data.
    pub fn new_update_request(id: MizeId, data: ItemData, conn_id: u64) -> (r: MizeMessage)
        ensures
            r@.value == message_value(CMD_UPDATE_REQUEST as int, Some(id@.path), Some(data@)),
            r@.conn_id == conn_id,
    {
        build_message(CMD_UPDATE_REQUEST, Some(&id), Some(data), conn_id)
    }

    /// Tells a subscriber the new data of `id`.
    pub fn new_update(id: MizeId, data: ItemData, conn_id: u64) -> (r: MizeMessage)
        ensures
            r@.value == message_value(CMD_UPDATE as int, Some(id@.path), Some(data@)),
            r@.conn_id == conn_id,
    {
        build_message(CMD_UPDATE, Some(&id), Some(data), conn_id)
    }

    pub fn value(self) -> (r: CborValue)
        ensures
            r@ == self@.value,
    {
        self.value
    }

    /// The connection this message came in on or goes out on.
    pub fn conn_id(&self) -> (r: u64)
        ensures
            r == self@.conn_id,
    {
        self.conn_id
    }

    pub fn value_ref(&self) -> (r: &CborValue)
        ensures
            r@ == self@.value,
    {
        &self.value
    }

    /// The command of this message (see `cmd_spec`).
    pub fn cmd(&self) -> (r: MizeResult<MessageCmd>)
        ensures
            match r {
                Ok(c) => cmd_spec(self@.value) == Some(c),
                Err(_) => cmd_spec(self@.value) is None,
            },
    {
        let m = match &self.value {
            CborValue::Mapping(m) => m,
            _ => {
                return Err(MizeError::new().msg("Message was not a map"));
            },
        };
        let n = match find_last_int_for_key(m, MSG_CMD) {
            Some(n) => n,
            None => {
                return Err(MizeError::new().msg("error getting the cmd value form a msg"));
            },
        };
        if n == 0 {
            Err(MizeError::new().msg("error getting the cmd value form a msg"))
        } else if n == CMD_GET {
            Ok(MessageCmd::Get)
        } else if n == CMD_UPDATE {
            Ok(MessageCmd::Update)
        } else if n == CMD_GIVE {
            Ok(MessageCmd::Give)
        } else if n == CMD_CREATE {
            Ok(MessageCmd::Create)
        } else if n == CMD_CREATE_REPLY {
            Ok(MessageCmd::CreateReply)
        } else if n == CMD_UPDATE_REQUEST {
            Ok(MessageCmd::UpdateRequest)
        } else if n == CMD_GET_SUB {
            Ok(MessageCmd::GetSub)
        } else if n == CMD_SUB {
            Ok(MessageCmd::Sub)
        } else {
            Err(MizeError::new().msg("error cmd of msg was not a valid command"))
        }
    }

    /// The id path of this message (see `id_spec`).
    pub fn id_str(&self) -> (r: MizeResult<Vec<String>>)
        ensures
            match r {
                Ok(v) => id_spec(self@.value) == Some(texts(v@)),
                Err(_) => id_spec(self@.value) is None,
            },
    {
        let m = match &self.value {
            CborValue::Mapping(m) => m,
            _ => {
                return Err(MizeError::new().msg("Message was not a map"));
            },
        };
        proof {
            lemma_entry_models(m@);
        }
        let j = match find_last_int_key(m, MSG_ID) {
            Some(j) => j,
            None => {
                return Err(MizeError::new().msg("error getting the id value form a msg"));
            },
        };
        let a = match &m[j].1 {
            CborValue::Array(a) => a,
            _ => {
                return Err(MizeError::new().msg("Id is not a vector"));
            },
        };
        proof {
            lemma_models(a@);
            assert(model(m@[j as int].1) == Cbor::Array(models(a@)));
            assert(self@.value == Cbor::Mapping(entry_models(m@)));
        }
        let ghost found = models(a@);
        let mut out: Vec<String> = Vec::new();
        let mut i: usize = 0;
        while i < a.len()
            invariant
                i <= a.len(),
                self@.value == Cbor::Mapping(entry_models(m@)),
                last_with_key(entry_models(m@), Cbor::Integer(MSG_ID as int)) == Some(
                    Cbor::Array(models(a@)),
                ),
                models(a@).len() == a@.len(),
                forall|j: int| 0 <= j < a@.len() ==> #[trigger] models(a@)[j] == model(a@[j]),
                out@.len() == i,
                forall|j: int| 0 <= j < i ==> models(a@)[j] == Cbor::Text(#[trigger] out@[j]@),
            decreases a.len() - i,
        {
            match &a[i] {
                CborValue::Text(t) => {
                    out.push(t.clone());
                },
                _ => {
                    assert(!(models(a@)[i as int] is Text));
                    assert(!all_texts(models(a@)));
                    return Err(
                        MizeError::new().msg("one in the vec of the id in a msg is not of type Text"),
                    );
                },
            }
            i = i + 1;
        }
        assert forall|k: int| 0 <= k < models(a@).len() implies #[trigger] models(a@)[k] is Text by {
            assert(models(a@)[k] == Cbor::Text(out@[k]@));
        }
        assert(all_texts(models(a@)));
        assert(texts(out@) =~= Seq::new(models(a@).len(), |i: int| models(a@)[i]->Text_0));
        Ok(out)
    }

    /// The data of this message (see `data_spec`).
    pub fn data(&self) -> (r: MizeResult<ItemData>)
        ensures
            match r {
                Ok(d) => data_spec(self@.value) == Some(d@),
                Err(_) => data_spec(self@.value) is None,
            },
    {
        let m = match &self.value {
            CborValue::Mapping(m) => m,
            _ => {
                return Err(MizeError::new().msg("Message was not a map"));
            },
        };
        match find_last_int_key(m, MSG_DATA) {
            Some(j) => Ok(ItemData(m[j].1.copy())),
            None => Err(MizeError::new().msg("error getting the data value form a msg")),
        }
    }
}

/// A message that was built gives back its command, its id and its data.
pub proof fn law_message_roundtrip(c: MessageCmd, id: Option<Seq<Seq<char>>>, data: Option<Cbor>)
    ensures
        cmd_spec(message_value(cmd_number(c), id, data)) == Some(c),
        id_spec(message_value(cmd_number(c), id, data)) == id,
        data_spec(message_value(cmd_number(c), id, data)) == data,
{
    let cm = seq![(Cbor::Integer(MSG_CMD as int), Cbor::Integer(cmd_number(c)))];
    let im = match id {
        Some(p) => seq![(Cbor::Integer(MSG_ID as int), id_value(p))],
        None => Seq::<(Cbor, Cbor)>::empty(),
    };
    let dm = match data {
        Some(x) => seq![(Cbor::Integer(MSG_DATA as int), x)],
        None => Seq::<(Cbor, Cbor)>::empty(),
    };
    let m = cm + im + dm;
    assert(message_value(cmd_number(c), id, data) == Cbor::Mapping(m));
    let ci = cm + im;
    let k1 = Cbor::Integer(MSG_CMD as int);
    let k2 = Cbor::Integer(MSG_ID as int);
    let k3 = Cbor::Integer(MSG_DATA as int);
    assert(cm.drop_last() =~= Seq::<(Cbor, Cbor)>::empty());
    assert(cm.last() == (k1, Cbor::Integer(cmd_number(c))));
    assert(last_int_for_key(cm, MSG_CMD as int) == Some(cmd_number(c)));
    assert(last_with_key(cm.drop_last(), k2) is None);
    assert(last_with_key(cm.drop_last(), k3) is None);
    assert(k1 != k2 && k1 != k3);
    assert(last_with_key(cm, k2) is None);
    assert(last_with_key(cm, k3) is None);
    match id {
        Some(p) => {
            assert(ci.drop_last() =~= cm);
            assert(ci.last() == (k2, id_value(p)));
            assert(last_int_for_key(ci, MSG_CMD as int) == last_int_for_key(cm, MSG_CMD as int));
            assert(last_with_key(ci, k2) == Some(id_value(p)));
            assert(last_with_key(ci, k3) == last_with_key(cm, k3));
            let a = Seq::new(p.len(), |i: int| Cbor::Text(p[i]));
            assert(all_texts(a));
            assert(Seq::new(a.len(), |i: int| a[i]->Text_0) =~= p);
        },
        None => {
            assert(ci =~= cm);
        },
    }
    match data {
        Some(x) => {
            assert(m.drop_last() =~= ci);
            assert(m.last() == (k3, x));
            assert(last_int_for_key(m, MSG_CMD as int) == last_int_for_key(ci, MSG_CMD as int));
            assert(last_with_key(m, k2) == last_with_key(ci, k2));
            assert(last_with_key(m, k3) == Some(x));
        },
        None => {
            assert(m =~= ci);
        },
    }
}

impl Clone for MizeMessage {
    fn clone(&self) -> (r: Self)
        ensures
            r@ == self@,
    {
        MizeMessage { value: self.value.copy(), conn_id: self.conn_id }
    }
}

} // verus!
