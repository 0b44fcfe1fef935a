//! Changes to the port forwarding table: the form that adds one forward, and
//! the form that enables, disables or deletes many at once.

use crate::models::{dotted, protocol_id, PortForwardEntry};
use crate::text::{
    decimal, decimal_string, free_of, is_digit, lemma_decimal_parses, lemma_decimal_reads_back,
    lemma_split_extended, lemma_split_single, parse_unsigned, split,
};
use vstd::prelude::*;
use vstd::string::*;

verus! {

/// What to do with one port forward when the table is edited.
#[derive(Clone, Copy, Debug, PartialEq, Eq, Structural)]
pub enum PortForwardAction {
    /// Leave the forward as it is.
    Keep,
    /// Switch the forward on.
    Enable,
    /// Switch the forward off.
    Disable,
    /// Remove the forward.
    Delete,
}

/// One change of a batch: the forward it applies to, whether the forward is
/// on afterwards, and whether it is removed.
#[derive(Clone, Copy, Debug, PartialEq, Eq, Structural)]
pub struct BatchRow {
    pub id: u32,
    pub enable: bool,
    pub delete: bool,
}

/// The three lists of a batch as the modem's form takes them. The lists are
/// aligned: the k-th id, the k-th enable flag and the k-th delete flag belong
/// to the same forward.
#[derive(Debug)]
pub struct BatchEdit {
    pub instance: String,
    pub enable: String,
    pub delete: String,
}

/// The fields of a form, in order: names and values.
pub type Fields = Seq<(Seq<char>, Seq<char>)>;

/// The fields of a form as sequences of characters.
pub open spec fn fields_view(fields: Seq<(String, String)>) -> Fields {
    Seq::new(fields.len(), |i: int| (fields[i].0@, fields[i].1@))
}

/// A list with one more item: the modem separates the items of a list by
/// `*`, and reads an empty text as the empty list.
pub open spec fn star_pushed(list: Seq<char>, item: Seq<char>) -> Seq<char> {
    if list.len() == 0 {
        item
    } else {
        list + seq!['*'] + item
    }
}

/// The list of `items`, in order.
pub open spec fn star_list(items: Seq<Seq<char>>) -> Seq<char>
    decreases items.len(),
{
    if items.len() == 0 {
        Seq::empty()
    } else {
        star_pushed(star_list(items.drop_last()), items.last())
    }
}

/// Appends `item` to the list in `list`.
pub fn push_star(list: &mut String, item: &str)
    ensures
        final(list)@ == star_pushed(old(list)@, item@),
{
    proof {
        reveal_strlit("*");
    }
    if !list.as_str().is_empty() {
        list.append("*");
    }
    list.append(item);
    assert(list@ =~= star_pushed(old(list)@, item@));
}

/// The change that a decision on a forward asks for; none where the forward
/// is kept.
pub open spec fn row_of(entry: PortForwardEntry, action: PortForwardAction) -> Option<BatchRow> {
    match action {
        PortForwardAction::Keep => None,
        PortForwardAction::Enable => Some(BatchRow { id: entry.id, enable: true, delete: false }),
        PortForwardAction::Disable => Some(
            BatchRow { id: entry.id, enable: false, delete: false },
        ),
        PortForwardAction::Delete => Some(BatchRow { id: entry.id, enable: false, delete: true }),
    }
}

/// The change that a decision on a forward asks for.
pub fn row_for(entry: &PortForwardEntry, action: PortForwardAction) -> (row: Option<BatchRow>)
    ensures
        row == row_of(*entry, action),
{
    match action {
        PortForwardAction::Keep => None,
        PortForwardAction::Enable => Some(BatchRow { id: entry.id, enable: true, delete: false }),
        PortForwardAction::Disable => Some(
            BatchRow { id: entry.id, enable: false, delete: false },
        ),
        PortForwardAction::Delete => Some(BatchRow { id: entry.id, enable: false, delete: true }),
    }
}

/// The changes that the decisions `actions` on the forwards `entries` ask
/// for: one for each forward that is not kept, in the table's order.
pub open spec fn rows_of(entries: Seq<PortForwardEntry>, actions: Seq<PortForwardAction>) -> Seq<
    BatchRow,
>
    recommends
        entries.len() == actions.len(),
    decreases entries.len(),
{
    if entries.len() == 0 || actions.len() == 0 {
        Seq::empty()
    } else {
        let before = rows_of(entries.drop_last(), actions.drop_last());
        match row_of(entries.last(), actions.last()) {
            None => before,
            Some(row) => before.push(row),
        }
    }
}

/// Whether `actions` are decisions of `decide` on the forwards `entries`, one
/// for each and in their order.
pub open spec fn decided<F>(
    decide: F,
    entries: Seq<PortForwardEntry>,
    actions: Seq<PortForwardAction>,
) -> bool where F: FnMut(PortForwardEntry) -> PortForwardAction {
    &&& actions.len() == entries.len()
    &&& forall|i: int|
        0 <= i < entries.len() ==> call_ensures(decide, (entries[i],), #[trigger] actions[i])
}

/// Asks `decide` about every forward, in the table's order, and collects the
/// changes that it asks for.
pub fn batch_rows<F>(entries: &Vec<PortForwardEntry>, mut decide: F) -> (rows: Vec<BatchRow>)
    where
        F: FnMut(PortForwardEntry) -> PortForwardAction,
    requires
        forall|i: int| 0 <= i < entries.len() ==> call_requires(decide, (#[trigger] entries[i],)),
    ensures
        exists|actions: Seq<PortForwardAction>|
            #[trigger] decided(decide, entries@, actions) && rows@ == rows_of(entries@, actions),
{
    let mut rows: Vec<BatchRow> = Vec::new();
    let ghost mut actions: Seq<PortForwardAction> = Seq::empty();
    let ghost asked = decide;
    let mut i: usize = 0;
    while i < entries.len()
        invariant
            i <= entries.len(),
            decide == asked,
            forall|j: int|
                0 <= j < entries.len() ==> call_requires(decide, (#[trigger] entries[j],)),
            actions.len() == i,
            forall|j: int|
                0 <= j < i ==> call_ensures(decide, (entries[j],), #[trigger] actions[j]),
            rows@ == rows_of(entries@.take(i as int), actions),
        decreases entries.len() - i,
    {
        let entry = entries[i];
        let action = decide(entry);
        proof {
            let longer = actions.push(action);
            assert(entries@.take(i + 1).drop_last() =~= entries@.take(i as int));
            assert(longer.drop_last() =~= actions);
            actions = longer;
        }
        match row_for(&entry, action) {
            None => {},
            Some(row) => {
                rows.push(row);
            },
        }
        i += 1;
    }
    proof {
        assert(entries@.take(entries.len() as int) =~= entries@);
        assert(decided(decide, entries@, actions));
    }
    rows
}

/// The text of a flag in the modem's forms.
pub open spec fn flag(on: bool) -> Seq<char> {
    decimal(
        if on {
            1
        } else {
            0
        },
    )
}

/// The ids of the changes, each in decimal.
pub open spec fn id_column(rows: Seq<BatchRow>) -> Seq<Seq<char>> {
    Seq::new(rows.len(), |k: int| decimal(rows[k].id as nat))
}

/// The enable flags of the changes.
pub open spec fn enable_column(rows: Seq<BatchRow>) -> Seq<Seq<char>> {
    Seq::new(rows.len(), |k: int| flag(rows[k].enable))
}

/// The delete flags of the changes.
pub open spec fn delete_column(rows: Seq<BatchRow>) -> Seq<Seq<char>> {
    Seq::new(rows.len(), |k: int| flag(rows[k].delete))
}

fn flag_text(on: bool) -> (s: &'static str)
    ensures
        s@ == flag(on),
{
    proof {
        reveal_strlit("0");
        reveal_strlit("1");
    }
    let s = if on {
        "1"
    } else {
        "0"
    };
    assert(s@ =~= flag(on));
    s
}

/// Writes the changes as the three aligned lists of the modem's form.
pub fn encode_rows(rows: &Vec<BatchRow>) -> (batch: BatchEdit)
    ensures
        batch.instance@ == star_list(id_column(rows@)),
        batch.enable@ == star_list(enable_column(rows@)),
        batch.delete@ == star_list(delete_column(rows@)),
{
    let mut instance = String::new();
    let mut enable = String::new();
    let mut delete = String::new();
    let mut k: usize = 0;
    while k < rows.len()
        invariant
            k <= rows.len(),
            instance@ == star_list(id_column(rows@.take(k as int))),
            enable@ == star_list(enable_column(rows@.take(k as int))),
            delete@ == star_list(delete_column(rows@.take(k as int))),
        decreases rows.len() - k,
    {
        let row = rows[k];
        proof {
            let before = rows@.take(k as int);
            let now = rows@.take(k + 1);
            assert(id_column(now).drop_last() =~= id_column(before));
            assert(enable_column(now).drop_last() =~= enable_column(before));
            assert(delete_column(now).drop_last() =~= delete_column(before));
        }
        push_star(&mut enable, flag_text(row.enable));
        push_star(&mut delete, flag_text(row.delete));
        let id = decimal_string(row.id as u64);
        push_star(&mut instance, id.as_str());
        k += 1;
    }
    proof {
        assert(rows@.take(rows.len() as int) =~= rows@);
    }
    BatchEdit { instance, enable, delete }
}

/// Appends the field `name` with the value `value` to a form.
pub fn push_field(form: &mut Vec<(String, String)>, name: &str, value: &str)
    ensures
        fields_view(final(form)@) == fields_view(old(form)@).push((name@, value@)),
{
    form.push((String::from_str(name), String::from_str(value)));
    assert(fields_view(form@) =~= fields_view(old(form)@).push((name@, value@)));
}

/// The form that applies a batch of changes: the three lists, and every
/// field of a single forward left empty.
pub open spec fn edit_form(instance: Seq<char>, enable: Seq<char>, delete: Seq<char>) -> Fields {
    seq![
        ("action"@, "apply"@),
        ("instance"@, instance),
        ("local_IP"@, Seq::empty()),
        ("start_port"@, Seq::empty()),
        ("end_port"@, Seq::empty()),
        ("start_portIn"@, Seq::empty()),
        ("end_portIn"@, Seq::empty()),
        ("protocol"@, Seq::empty()),
        ("enable"@, enable),
        ("delete"@, delete),
        ("idd"@, Seq::empty()),
    ]
}

/// Lays out the form that applies a batch of changes.
pub fn edit_fields(batch: &BatchEdit) -> (form: Vec<(String, String)>)
    ensures
        fields_view(form@) == edit_form(batch.instance@, batch.enable@, batch.delete@),
{
    proof {
        reveal_strlit("");
    }
    assert(""@ =~= Seq::<char>::empty());
    let mut form: Vec<(String, String)> = Vec::new();
    assert(fields_view(form@) =~= Seq::<(Seq<char>, Seq<char>)>::empty());
    push_field(&mut form, "action", "apply");
    push_field(&mut form, "instance", batch.instance.as_str());
    push_field(&mut form, "local_IP", "");
    push_field(&mut form, "start_port", "");
    push_field(&mut form, "end_port", "");
    push_field(&mut form, "start_portIn", "");
    push_field(&mut form, "end_portIn", "");
    push_field(&mut form, "protocol", "");
    push_field(&mut form, "enable", batch.enable.as_str());
    push_field(&mut form, "delete", batch.delete.as_str());
    push_field(&mut form, "idd", "");
    assert(fields_view(form@) =~= edit_form(batch.instance@, batch.enable@, batch.delete@));
    form
}

/// The form that adds the forward `entry`. The modem numbers the new forward
/// itself, so the entry's id is left out.
pub open spec fn add_form(entry: PortForwardEntry) -> Fields {
    seq![
        ("action"@, "add"@),
        ("instance"@, Seq::empty()),
        ("local_IP"@, dotted(entry.local_ip)),
        ("start_port"@, decimal(entry.start_port as nat)),
        ("end_port"@, decimal(entry.end_port as nat)),
        ("start_portIn"@, decimal(entry.start_port_in as nat)),
        ("end_portIn"@, decimal(entry.end_port_in as nat)),
        ("protocol"@, decimal(protocol_id(entry.protocol) as nat)),
        ("enable"@, flag(entry.enable)),
        ("delete"@, flag(false)),
        ("idd"@, Seq::empty()),
    ]
}

/// Lays out the form that adds the forward `entry`.
pub fn add_fields(entry: &PortForwardEntry) -> (form: Vec<(String, String)>)
    ensures
        fields_view(form@) == add_form(*entry),
{
    proof {
        reveal_strlit("");
    }
    assert(""@ =~= Seq::<char>::empty());
    let local_ip = entry.local_ip.to_string();
    let start_port = decimal_string(entry.start_port as u64);
    let end_port = decimal_string(entry.end_port as u64);
    let start_port_in = decimal_string(entry.start_port_in as u64);
    let end_port_in = decimal_string(entry.end_port_in as u64);
    let mut form: Vec<(String, String)> = Vec::new();
    assert(fields_view(form@) =~= Seq::<(Seq<char>, Seq<char>)>::empty());
    push_field(&mut form, "action", "add");
    push_field(&mut form, "instance", "");
    push_field(&mut form, "local_IP", local_ip.as_str());
    push_field(&mut form, "start_port", start_port.as_str());
    push_field(&mut form, "end_port", end_port.as_str());
    push_field(&mut form, "start_portIn", start_port_in.as_str());
    push_field(&mut form, "end_portIn", end_port_in.as_str());
    push_field(&mut form, "protocol", entry.protocol.id_str());
    push_field(&mut form, "enable", flag_text(entry.enable));
    push_field(&mut form, "delete", flag_text(false));
    push_field(&mut form, "idd", "");
    assert(fields_view(form@) =~= add_form(*entry));
    form
}

/// The items of a list in one of the modem's forms: none for the empty text,
/// else what stands between the stars.
pub open spec fn star_items(list: Seq<char>) -> Seq<Seq<char>> {
    if list.len() == 0 {
        Seq::empty()
    } else {
        split(list, '*')
    }
}

/// Whether each of `items` can stand in a list: it is not empty, and holds
/// no star.
pub open spec fn listable(items: Seq<Seq<char>>) -> bool {
    forall|k: int|
        0 <= k < items.len() ==> (#[trigger] items[k]).len() > 0 && free_of(items[k], '*')
}

/// Reading a list gives back the items that it was written from, as many
/// and in the same order.
pub proof fn lemma_star_list_reads_back(items: Seq<Seq<char>>)
    requires
        listable(items),
    ensures
        star_items(star_list(items)) == items,
        items.len() > 0 ==> star_list(items).len() > 0,
    decreases items.len(),
{
    if items.len() == 0 {
        assert(items =~= Seq::<Seq<char>>::empty());
    } else {
        let before = items.drop_last();
        let last = items.last();
        assert(last.len() > 0 && free_of(last, '*'));
        assert(listable(before)) by {
            assert forall|k: int| 0 <= k < before.len() implies (#[trigger] before[k]).len() > 0
                && free_of(before[k], '*') by {
                assert(before[k] == items[k]);
            }
        }
        lemma_star_list_reads_back(before);
        if before.len() == 0 {
            assert(star_list(before) =~= Seq::<char>::empty());
            lemma_split_single(last, '*');
            assert(items =~= seq![last]);
        } else {
            lemma_split_extended(star_list(before), last, '*', 0);
            assert(items =~= before.push(last));
        }
    }
}

/// The texts of numbers can stand in a list.
pub proof fn lemma_decimals_are_listable(items: Seq<Seq<char>>, numbers: Seq<nat>)
    requires
        items.len() == numbers.len(),
        forall|k: int| 0 <= k < items.len() ==> #[trigger] items[k] == decimal(numbers[k]),
    ensures
        listable(items),
{
    assert forall|k: int| 0 <= k < items.len() implies (#[trigger] items[k]).len() > 0 && free_of(
        items[k],
        '*',
    ) by {
        lemma_decimal_reads_back(numbers[k]);
        assert forall|i: int| 0 <= i < items[k].len() implies #[trigger] items[k][i] != '*' by {
            assert(is_digit(items[k][i]));
        }
    }
}

/// The three lists of a batch are aligned. Read back, each list holds one
/// item for each change and in the order of the changes, and the k-th items
/// are the id, the enable flag and the delete flag of the k-th change.
pub proof fn lemma_batch_is_aligned(rows: Seq<BatchRow>)
    ensures
        star_items(star_list(id_column(rows))) == id_column(rows),
        star_items(star_list(enable_column(rows))) == enable_column(rows),
        star_items(star_list(delete_column(rows))) == delete_column(rows),
        id_column(rows).len() == rows.len(),
        enable_column(rows).len() == rows.len(),
        delete_column(rows).len() == rows.len(),
        forall|k: int|
            0 <= k < rows.len() ==> {
                &&& parse_unsigned(#[trigger] id_column(rows)[k], u32::MAX as nat) == Some(
                    rows[k].id as nat,
                )
                &&& parse_unsigned(enable_column(rows)[k], 1) == Some(
                    if rows[k].enable {
                        1nat
                    } else {
                        0nat
                    },
                )
                &&& parse_unsigned(delete_column(rows)[k], 1) == Some(
                    if rows[k].delete {
                        1nat
                    } else {
                        0nat
                    },
                )
            },
{
    let ids = Seq::new(rows.len(), |k: int| rows[k].id as nat);
    let enables = Seq::new(
        rows.len(),
        |k: int|
            if rows[k].enable {
                1nat
            } else {
                0nat
            },
    );
    let deletes = Seq::new(
        rows.len(),
        |k: int|
            if rows[k].delete {
                1nat
            } else {
                0nat
            },
    );
    lemma_decimals_are_listable(id_column(rows), ids);
    lemma_decimals_are_listable(enable_column(rows), enables);
    lemma_decimals_are_listable(delete_column(rows), deletes);
    lemma_star_list_reads_back(id_column(rows));
    lemma_star_list_reads_back(enable_column(rows));
    lemma_star_list_reads_back(delete_column(rows));
    assert forall|k: int| 0 <= k < rows.len() implies {
        &&& parse_unsigned(#[trigger] id_column(rows)[k], u32::MAX as nat) == Some(
            rows[k].id as nat,
        )
        &&& parse_unsigned(enable_column(rows)[k], 1) == Some(
            if rows[k].enable {
                1nat
            } else {
                0nat
            },
        )
        &&& parse_unsigned(delete_column(rows)[k], 1) == Some(
            if rows[k].delete {
                1nat
            } else {
                0nat
            },
        )
    } by {
        lemma_decimal_parses(ids[k], u32::MAX as nat);
        lemma_decimal_parses(enables[k], 1);
        lemma_decimal_parses(deletes[k], 1);
    }
}

/// Where every forward is kept, nothing changes: the batch is empty, and so
/// are its three lists.
pub proof fn lemma_keeping_all_changes_nothing(
    entries: Seq<PortForwardEntry>,
    actions: Seq<PortForwardAction>,
)
    requires
        forall|i: int| 0 <= i < actions.len() ==> #[trigger] actions[i] == PortForwardAction::Keep,
    ensures
        rows_of(entries, actions).len() == 0,
        star_list(id_column(rows_of(entries, actions))).len() == 0,
        star_list(enable_column(rows_of(entries, actions))).len() == 0,
        star_list(delete_column(rows_of(entries, actions))).len() == 0,
    decreases entries.len(),
{
    if entries.len() > 0 && actions.len() > 0 {
        assert(actions.last() == actions[actions.len() - 1]);
        let before = actions.drop_last();
        assert forall|i: int| 0 <= i < before.len() implies #[trigger] before[i]
            == PortForwardAction::Keep by {
            assert(before[i] == actions[i]);
        }
        lemma_keeping_all_changes_nothing(entries.drop_last(), before);
    }
}

/// A batch holds one change for each forward that is not kept, and no more.
pub proof fn lemma_batch_is_no_longer_than_table(
    entries: Seq<PortForwardEntry>,
    actions: Seq<PortForwardAction>,
)
    ensures
        rows_of(entries, actions).len() <= entries.len(),
    decreases entries.len(),
{
    if entries.len() > 0 && actions.len() > 0 {
        lemma_batch_is_no_longer_than_table(entries.drop_last(), actions.drop_last());
    }
}

/// Where one forward only is not kept, the batch is the one change that was
/// decided for it.
pub proof fn lemma_single_change(
    entries: Seq<PortForwardEntry>,
    actions: Seq<PortForwardAction>,
    at: int,
)
    requires
        entries.len() == actions.len(),
        0 <= at < entries.len(),
        actions[at] != PortForwardAction::Keep,
        forall|i: int|
            0 <= i < actions.len() && i != at ==> #[trigger] actions[i] == PortForwardAction::Keep,
    ensures
        row_of(entries[at], actions[at]) is Some,
        rows_of(entries, actions) == seq![row_of(entries[at], actions[at])->Some_0],
    decreases entries.len(),
{
    let before_entries = entries.drop_last();
    let before_actions = actions.drop_last();
    if at == entries.len() - 1 {
        assert forall|i: int| 0 <= i < before_actions.len() implies #[trigger] before_actions[i]
            == PortForwardAction::Keep by {
            assert(before_actions[i] == actions[i]);
        }
        lemma_keeping_all_changes_nothing(before_entries, before_actions);
        assert(rows_of(before_entries, before_actions) =~= Seq::<BatchRow>::empty());
        assert(rows_of(entries, actions) =~= seq![row_of(entries[at], actions[at])->Some_0]);
    } else {
        assert(actions.last() == PortForwardAction::Keep);
        assert forall|i: int|
            0 <= i < before_actions.len() && i != at implies #[trigger] before_actions[i]
            == PortForwardAction::Keep by {
            assert(before_actions[i] == actions[i]);
        }
        assert(before_actions[at] == actions[at]);
        assert(before_entries[at] == entries[at]);
        lemma_single_change(before_entries, before_actions, at);
    }
}

} // verus!
