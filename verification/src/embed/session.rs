//! Driving a decoder-style embedder by hand.
//!
//! `input_ids`, `attention_mask` and, when the graph asks, `position_ids` go
//! in; the hidden states come out and are pooled at each row's last attended
//! token, unless the export carries a pooled output of its own.

use vstd::prelude::*;

use crate::domain::json::{parse, parsed, Json};
use crate::text::chars::texts;
use crate::text::number::{decimal, to_decimal};
use crate::text::search::{ends_with, has_prefix, same, starts_with};

verus! {

/// How a session is to be fed and read.
#[derive(Debug)]
pub struct SessionPlan {
    /// The graph takes positions.
    pub wants_position_ids: bool,
    /// The `past_key_values.<n>.key|value` inputs a decoder export carries,
    /// each fed an empty cache of `[rows, kv_heads, 0, head_dim]`.
    pub past_inputs: Vec<String>,
    pub kv_heads: u64,
    pub head_dim: u64,
    /// The export carries its own pooled output, `sentence_embedding`.
    pub pooled: bool,
    /// The end-of-sequence text has to be appended, because the tokenizer's
    /// post-processor does not.
    pub append_eos: bool,
}

/// The inputs that hold a key-value cache.
pub open spec fn cache_inputs(names: Seq<Seq<char>>) -> Seq<Seq<char>> {
    names.filter(|name: Seq<char>| starts_with(name, "past_key_values."@))
}

/// The natural number a configuration holds under `key`.
pub open spec fn config_number(config: Json, key: Seq<char>) -> Result<nat, Seq<char>> {
    match config.field(key) {
        Some(value) => match value.integer() {
            Some(n) => if 0 <= n <= u64::MAX {
                Ok(n as nat)
            } else {
                Err("config.json lacks "@ + key)
            },
            None => Err("config.json lacks "@ + key),
        },
        None => Err("config.json lacks "@ + key),
    }
}

/// The width of one attention head: as configured, else the hidden size over
/// the heads.
pub open spec fn head_width(config: Json) -> Result<nat, Seq<char>> {
    match config_number(config, "head_dim"@) {
        Ok(dim) => Ok(dim),
        Err(_) => match config_number(config, "hidden_size"@) {
            Ok(hidden) => match config_number(config, "num_attention_heads"@) {
                Ok(heads) => Ok(hidden / heads),
                Err(message) => Err(message),
            },
            Err(message) => Err(message),
        },
    }
}

/// The heads of the key-value cache and the width of one.
pub open spec fn cache_shape(config: Json) -> Result<(nat, nat), Seq<char>> {
    match head_width(config) {
        Ok(width) => match config_number(config, "num_key_value_heads"@) {
            Ok(heads) => Ok((heads, width)),
            Err(message) => Err(message),
        },
        Err(message) => Err(message),
    }
}

/// The hidden size is divided by a number of heads that is not zero.
pub open spec fn divisible(config: Json) -> bool {
    config_number(config, "head_dim"@) is Err && config_number(config, "hidden_size"@) is Ok
        ==> config_number(config, "num_attention_heads"@) != Ok::<nat, Seq<char>>(0)
}

/// The natural number a configuration holds under `key`.
fn number(config: &Json, key: &str) -> (result: Result<u64, String>)
    ensures
        match result {
            Ok(n) => config_number(*config, key@) == Ok::<nat, Seq<char>>(n as nat),
            Err(message) => config_number(*config, key@) == Err::<nat, Seq<char>>(message@),
        },
{
    if let Some(value) = config.get(key) {
        if let Some(n) = value.as_u64() {
            return Ok(n);
        }
    }
    Err("config.json lacks ".to_owned().concat(key))
}

/// The heads of the key-value cache and the width of one.
fn read_cache_shape(config: &Json) -> (result: Result<(u64, u64), String>)
    requires
        divisible(*config),
    ensures
        match result {
            Ok((heads, width)) => cache_shape(*config) == Ok::<(nat, nat), Seq<char>>(
                (heads as nat, width as nat),
            ),
            Err(message) => cache_shape(*config) == Err::<(nat, nat), Seq<char>>(message@),
        },
{
    let width: u64 = match number(config, "head_dim") {
        Ok(dim) => dim,
        Err(_) => {
            let hidden: u64 = match number(config, "hidden_size") {
                Ok(hidden) => hidden,
                Err(message) => {
                    return Err(message);
                },
            };
            let heads: u64 = match number(config, "num_attention_heads") {
                Ok(heads) => heads,
                Err(message) => {
                    return Err(message);
                },
            };
            hidden / heads
        },
    };
    match number(config, "num_key_value_heads") {
        Ok(heads) => Ok((heads, width)),
        Err(message) => Err(message),
    }
}

/// Whether `name` is among the names.
fn is_named(names: &[String], name: &str) -> (result: bool)
    ensures
        result == texts(names@).contains(name@),
{
    let mut i: usize = 0;
    while i < names.len()
        invariant
            i <= names@.len(),
            forall|j: int| 0 <= j < i ==> (#[trigger] names@[j])@ != name@,
        decreases names@.len() - i,
    {
        if same(names[i].as_str(), name) {
            assert(texts(names@)[i as int] == name@);
            return true;
        }
        i += 1;
    }
    assert forall|j: int| 0 <= j < texts(names@).len() implies texts(names@)[j] != name@ by {
        assert(texts(names@)[j] == names@[j]@);
    }
    false
}

/// The inputs that hold a key-value cache.
fn pick_cache_inputs(names: &[String]) -> (picked: Vec<String>)
    ensures
        texts(picked@) == cache_inputs(texts(names@)),
{
    let mut picked: Vec<String> = Vec::new();
    let mut i: usize = 0;
    let ghost all = texts(names@);
    let ghost cached = |name: Seq<char>| starts_with(name, "past_key_values."@);
    reveal(Seq::filter);
    assert(all.take(0) =~= Seq::empty());
    assert(texts(picked@) =~= all.take(0).filter(cached));
    while i < names.len()
        invariant
            i <= names@.len(),
            all == texts(names@),
            cached == (|name: Seq<char>| starts_with(name, "past_key_values."@)),
            texts(picked@) == all.take(i as int).filter(cached),
        decreases names@.len() - i,
    {
        let ghost before = texts(picked@);
        assert(all.take(i + 1).drop_last() =~= all.take(i as int));
        assert(all.take(i + 1).last() == names@[i as int]@);
        assert(all.take(i + 1).filter(cached) == if cached(all[i as int]) {
            before.push(all[i as int])
        } else {
            before
        }) by {
            reveal(Seq::filter);
        }
        if has_prefix(names[i].as_str(), "past_key_values.") {
            picked.push(names[i].clone());
            assert(texts(picked@) =~= before.push(all[i as int]));
        }
        i += 1;
    }
    assert(all.take(i as int) =~= all);
    picked
}

/// Read the configuration of an export.
///
/// # Errors
/// What is wrong with a text that is not JSON.
pub fn read_config(text: &str) -> (result: Result<Json, String>)
    ensures
        match result {
            Ok(config) => parsed(text@) == Ok::<Json, Seq<char>>(config),
            Err(message) => parsed(text@) matches Err(error) && message@ == "config.json: "@
                + error,
        },
{
    match parse(text) {
        Ok(config) => Ok(config),
        Err(error) => Err("config.json: ".to_owned().concat(error.as_str())),
    }
}

/// Plan how to feed and read a session, from the names of the graph's inputs
/// and outputs, the export's configuration, and whether its tokenizer appends
/// the end-of-sequence token itself.
///
/// # Errors
/// When the graph wants a key-value cache and the configuration does not say
/// how large one is.
pub fn plan_session(
    inputs: &[String],
    outputs: &[String],
    config: &Json,
    tokenizer_appends_eos: bool,
) -> (result: Result<SessionPlan, String>)
    requires
        cache_inputs(texts(inputs@)).len() > 0 ==> divisible(*config),
    ensures
        match result {
            Ok(plan) => {
                &&& plan.wants_position_ids == texts(inputs@).contains("position_ids"@)
                &&& texts(plan.past_inputs@) == cache_inputs(texts(inputs@))
                &&& plan.past_inputs@.len() == 0 ==> plan.kv_heads == 0 && plan.head_dim == 0
                &&& plan.past_inputs@.len() > 0 ==> cache_shape(*config) == Ok::<
                    (nat, nat),
                    Seq<char>,
                >((plan.kv_heads as nat, plan.head_dim as nat))
                &&& plan.pooled == texts(outputs@).contains("sentence_embedding"@)
                &&& plan.append_eos == !tokenizer_appends_eos
            },
            Err(message) => cache_inputs(texts(inputs@)).len() > 0 && cache_shape(*config)
                == Err::<(nat, nat), Seq<char>>(message@),
        },
{
    let wants_position_ids = is_named(inputs, "position_ids");
    let past_inputs = pick_cache_inputs(inputs);
    assert(texts(past_inputs@).len() == past_inputs@.len());
    let (kv_heads, head_dim): (u64, u64) = if past_inputs.len() == 0 {
        (0, 0)
    } else {
        match read_cache_shape(config) {
            Ok(shape) => shape,
            Err(message) => {
                return Err(message);
            },
        }
    };
    Ok(
        SessionPlan {
            wants_position_ids,
            past_inputs,
            kv_heads,
            head_dim,
            pooled: is_named(outputs, "sentence_embedding"),
            append_eos: !tokenizer_appends_eos,
        },
    )
}

/// The id rows are padded with: that of the end-of-sequence token, if the
/// tokenizer has it.
///
/// # Errors
/// When it does not.
pub fn pad_id(found: Option<u32>, eos: &str) -> (result: Result<u32, String>)
    ensures
        match (found, result) {
            (Some(id), Ok(padding)) => padding == id,
            (None, Err(message)) => message@ == "tokenizer has no "@ + eos@ + " token"@,
            _ => false,
        },
{
    match found {
        Some(id) => Ok(id),
        None => Err("tokenizer has no ".to_owned().concat(eos).concat(" token")),
    }
}

/// What is handed to the tokenizer: the texts, each with the end-of-sequence
/// text behind it where the plan says to append one.
pub fn tokenizer_inputs(plan: &SessionPlan, texts: &[String], eos: &str) -> (inputs: Vec<String>)
    ensures
        inputs@.len() == texts@.len(),
        forall|i: int|
            0 <= i < texts@.len() ==> (#[trigger] inputs@[i])@ == (if plan.append_eos {
                texts@[i]@ + eos@
            } else {
                texts@[i]@
            }),
{
    let mut inputs: Vec<String> = Vec::new();
    let mut i: usize = 0;
    while i < texts.len()
        invariant
            i <= texts@.len(),
            inputs@.len() == i,
            forall|j: int|
                0 <= j < i ==> (#[trigger] inputs@[j])@ == (if plan.append_eos {
                    texts@[j]@ + eos@
                } else {
                    texts@[j]@
                }),
        decreases texts@.len() - i,
    {
        let text = if plan.append_eos {
            texts[i].clone().concat(eos)
        } else {
            texts[i].clone()
        };
        inputs.push(text);
        i += 1;
    }
    inputs
}

/// One tokenised text: its ids, padded, and which of them are attended to.
#[derive(Debug)]
pub struct Encoding {
    pub ids: Vec<u32>,
    pub mask: Vec<u32>,
}

/// The texts of one run, laid out row after row.
#[derive(Debug)]
pub struct TokenRows {
    pub rows: usize,
    /// Tokens per row.
    pub len: usize,
    pub ids: Vec<i64>,
    pub mask: Vec<i64>,
    pub positions: Vec<i64>,
}

/// Numbers, widened.
pub open spec fn widened(values: Seq<u32>) -> Seq<i64> {
    values.map_values(|value: u32| value as i64)
}

/// The ids of all rows, row after row.
pub open spec fn all_ids(encodings: Seq<Encoding>) -> Seq<i64>
    decreases encodings.len(),
{
    if encodings.len() == 0 {
        Seq::empty()
    } else {
        all_ids(encodings.drop_last()) + widened(encodings.last().ids@)
    }
}

/// The masks of all rows, row after row.
pub open spec fn all_masks(encodings: Seq<Encoding>) -> Seq<i64>
    decreases encodings.len(),
{
    if encodings.len() == 0 {
        Seq::empty()
    } else {
        all_masks(encodings.drop_last()) + widened(encodings.last().mask@)
    }
}

/// The positions of `rows` rows: each row counts from zero.
pub open spec fn all_positions(rows: nat, len: nat) -> Seq<i64>
    decreases rows,
{
    if rows == 0 {
        Seq::empty()
    } else {
        all_positions((rows - 1) as nat, len) + Seq::new(len, |p: int| p as i64)
    }
}

/// Append numbers, widened.
fn push_widened(out: &mut Vec<i64>, values: &Vec<u32>)
    ensures
        final(out)@ == old(out)@ + widened(values@),
{
    let mut i: usize = 0;
    assert(out@ =~= old(out)@ + widened(values@).take(0));
    while i < values.len()
        invariant
            i <= values@.len(),
            out@ == old(out)@ + widened(values@).take(i as int),
        decreases values@.len() - i,
    {
        out.push(values[i] as i64);
        i += 1;
        assert(out@ =~= old(out)@ + widened(values@).take(i as int));
    }
    assert(widened(values@).take(i as int) =~= widened(values@));
}

/// Lay the encodings of one run out row after row. The first one says how
/// long a row is; they are all padded to one length.
pub fn lay_out(encodings: &[Encoding]) -> (laid: TokenRows)
    requires
        encodings@.len() > 0 ==> encodings@[0].ids@.len() <= i64::MAX,
    ensures
        laid.rows == encodings@.len(),
        laid.len == if encodings@.len() == 0 {
            0
        } else {
            encodings@[0].ids@.len()
        },
        laid.ids@ == all_ids(encodings@),
        laid.mask@ == all_masks(encodings@),
        laid.positions@ == all_positions(encodings@.len(), laid.len as nat),
{
    let rows: usize = encodings.len();
    let len: usize = if rows == 0 {
        0
    } else {
        encodings[0].ids.len()
    };
    let mut ids: Vec<i64> = Vec::new();
    let mut mask: Vec<i64> = Vec::new();
    let mut positions: Vec<i64> = Vec::new();
    let mut row: usize = 0;
    while row < rows
        invariant
            row <= rows == encodings@.len(),
            len <= i64::MAX,
            ids@ == all_ids(encodings@.take(row as int)),
            mask@ == all_masks(encodings@.take(row as int)),
            positions@ == all_positions(row as nat, len as nat),
        decreases rows - row,
    {
        push_widened(&mut ids, &encodings[row].ids);
        push_widened(&mut mask, &encodings[row].mask);
        let ghost before = positions@;
        let ghost counted = Seq::new(len as nat, |p: int| p as i64);
        let mut p: usize = 0;
        assert(positions@ =~= before + counted.take(0));
        while p < len
            invariant
                p <= len <= i64::MAX,
                counted == Seq::new(len as nat, |p: int| p as i64),
                positions@ == before + counted.take(p as int),
            decreases len - p,
        {
            positions.push(p as i64);
            p += 1;
            assert(positions@ =~= before + counted.take(p as int));
        }
        assert(counted.take(p as int) =~= counted);
        assert(encodings@.take(row + 1).drop_last() =~= encodings@.take(row as int));
        row += 1;
    }
    assert(encodings@.take(row as int) =~= encodings@);
    TokenRows { rows, len, ids, mask, positions }
}

/// Every row has `len` tokens where every encoding has, so that the layout is
/// a `rows` by `len` rectangle.
pub proof fn a_padded_run_is_a_rectangle(encodings: Seq<Encoding>, len: nat)
    requires
        forall|i: int|
            0 <= i < encodings.len() ==> (#[trigger] encodings[i]).ids@.len() == len
                && encodings[i].mask@.len() == len,
    ensures
        all_ids(encodings).len() == encodings.len() * len,
        all_masks(encodings).len() == encodings.len() * len,
        all_positions(encodings.len(), len).len() == encodings.len() * len,
    decreases encodings.len(),
{
    if encodings.len() > 0 {
        a_padded_run_is_a_rectangle(encodings.drop_last(), len);
        assert(encodings.last().ids@.len() == len && encodings.last().mask@.len() == len);
        assert(encodings.len() * len == (encodings.len() - 1) * len + len) by (nonlinear_arith)
            requires
                encodings.len() > 0,
        ;
    }
}

/// `last` is the last position a row attends to.
pub open spec fn attends_last(mask: Seq<u32>, last: int) -> bool {
    &&& 0 <= last < mask.len()
    &&& mask[last] == 1
    &&& forall|i: int| last < i < mask.len() ==> #[trigger] mask[i] != 1
}

/// No position is attended to.
pub open spec fn attends_nowhere(mask: Seq<u32>) -> bool {
    forall|i: int| 0 <= i < mask.len() ==> #[trigger] mask[i] != 1
}

/// The last attended position of each row: where its vector is pooled.
///
/// # Errors
/// When a row attends to no token, naming the first such row.
pub fn pooled_positions(encodings: &[Encoding]) -> (result: Result<Vec<usize>, String>)
    ensures
        match result {
            Ok(positions) => positions@.len() == encodings@.len() && forall|i: int|
                0 <= i < encodings@.len() ==> attends_last(
                    (#[trigger] encodings@[i]).mask@,
                    positions@[i] as int,
                ),
            Err(message) => exists|row: int|
                0 <= row < encodings@.len() && attends_nowhere((#[trigger] encodings@[row]).mask@)
                    && (forall|i: int|
                    0 <= i < row ==> !attends_nowhere((#[trigger] encodings@[i]).mask@))
                    && message@ == "row "@ + decimal(row as nat) + " attends to no token"@,
        },
{
    let mut positions: Vec<usize> = Vec::new();
    let mut row: usize = 0;
    while row < encodings.len()
        invariant
            row <= encodings@.len(),
            positions@.len() == row,
            forall|i: int|
                0 <= i < row ==> attends_last(
                    (#[trigger] encodings@[i]).mask@,
                    positions@[i] as int,
                ),
        decreases encodings@.len() - row,
    {
        let mask = &encodings[row].mask;
        let mut after: usize = mask.len();
        while after > 0 && mask[after - 1] != 1
            invariant
                after <= mask@.len(),
                forall|i: int| after <= i < mask@.len() ==> #[trigger] mask@[i] != 1,
            decreases after,
        {
            after -= 1;
        }
        if after == 0 {
            assert(attends_nowhere(encodings@[row as int].mask@));
            assert forall|i: int| 0 <= i < row implies !attends_nowhere(
                (#[trigger] encodings@[i]).mask@,
            ) by {
                assert(attends_last(encodings@[i].mask@, positions@[i] as int));
            }
            return Err(
                "row ".to_owned().concat(to_decimal(row as u64).as_str()).concat(
                    " attends to no token",
                ),
            );
        }
        positions.push(after - 1);
        row += 1;
    }
    Ok(positions)
}

/// Every input of the model that takes the cache is fed, in order, and no other
/// is taken for one.
pub proof fn every_cache_input_is_fed(names: Seq<Seq<char>>, name: Seq<char>)
    ensures
        cache_inputs(Seq::empty()) == Seq::<Seq<char>>::empty(),
        starts_with(name, "past_key_values."@) ==> cache_inputs(names.push(name)) == cache_inputs(
            names,
        ).push(name),
        !starts_with(name, "past_key_values."@) ==> cache_inputs(names.push(name)) == cache_inputs(
            names,
        ),
{
    reveal(Seq::filter);
    assert(names.push(name).drop_last() =~= names);
}

/// A number of the configuration is read as it stands; one that is missing, is
/// no number or does not fit is an error that names it.
pub proof fn a_number_is_read_or_named(config: Json, key: Seq<char>, n: u64)
    ensures
        config.field(key) == Some(Json::Number(Some(n as i128))) ==> config_number(config, key)
            == Ok::<nat, Seq<char>>(n as nat),
        config.field(key) is None ==> (config_number(config, key) matches Err(message)
            && ends_with(message, key)),
        (config.field(key) matches Some(value) && !(value is Number)) ==> (config_number(
            config,
            key,
        ) matches Err(message) && ends_with(message, key)),
{
    let message = "config.json lacks "@ + key;
    assert(message.subrange(message.len() - key.len(), message.len() as int) =~= key);
}

/// The width of a head is the one the configuration names, else the hidden
/// size over the heads; the cache has it with the number of key-value heads.
pub proof fn the_named_head_width_wins(
    config: Json,
    width: u64,
    hidden: u64,
    heads: u64,
    kv_heads: u64,
)
    requires
        config.field("num_key_value_heads"@) == Some(Json::Number(Some(kv_heads as i128))),
    ensures
        config.field("head_dim"@) == Some(Json::Number(Some(width as i128))) ==> cache_shape(config)
            == Ok::<(nat, nat), Seq<char>>((kv_heads as nat, width as nat)),
        config.field("head_dim"@) is None && config.field("hidden_size"@) == Some(
            Json::Number(Some(hidden as i128)),
        ) && config.field("num_attention_heads"@) == Some(Json::Number(Some(heads as i128)))
            && heads > 0 ==> cache_shape(config) == Ok::<(nat, nat), Seq<char>>(
            (kv_heads as nat, hidden as nat / heads as nat),
        ),
{
}

/// A padded run is laid out row by row: token `j` of text `i` stands at
/// `i * len + j`, with its mask and its position.
pub proof fn a_run_is_laid_out_row_by_row(encodings: Seq<Encoding>, len: nat, i: int, j: int)
    requires
        forall|k: int|
            0 <= k < encodings.len() ==> (#[trigger] encodings[k]).ids@.len() == len
                && encodings[k].mask@.len() == len,
        0 <= i < encodings.len(),
        0 <= j < len,
        len <= i64::MAX,
    ensures
        0 <= i * len + j < encodings.len() * len,
        all_ids(encodings)[i * len + j] == encodings[i].ids@[j],
        all_masks(encodings)[i * len + j] == encodings[i].mask@[j],
        all_positions(encodings.len(), len)[i * len + j] == j,
    decreases encodings.len(),
{
    let front = encodings.drop_last();
    let n = front.len();
    assert forall|k: int| 0 <= k < front.len() implies (#[trigger] front[k]).ids@.len() == len
        && front[k].mask@.len() == len by {
        assert(front[k] == encodings[k]);
    }
    a_padded_run_is_a_rectangle(front, len);
    a_padded_run_is_a_rectangle(encodings, len);
    assert(encodings.len() * len == n * len + len) by (nonlinear_arith)
        requires
            encodings.len() == n + 1,
    ;
    if i < n {
        a_run_is_laid_out_row_by_row(front, len, i, j);
        assert(front[i] == encodings[i]);
    } else {
        assert(i * len == n * len) by (nonlinear_arith)
            requires
                i == n,
        ;
        assert(0 <= n * len) by (nonlinear_arith);
    }
}

/// A row has one last attended token at most, and has one unless it attends to
/// nothing.
pub proof fn a_row_has_one_last_attended_token(mask: Seq<u32>, a: int, b: int)
    ensures
        attends_last(mask, a) && attends_last(mask, b) ==> a == b,
        attends_last(mask, a) ==> mask[a] == 1 && !attends_nowhere(mask),
        attends_last(mask, a) && a < b < mask.len() ==> mask[b] != 1,
        0 <= a < mask.len() && mask[a] == 1 && (forall|i: int|
            a < i < mask.len() ==> #[trigger] mask[i] != 1) ==> attends_last(mask, a),
        attends_nowhere(mask) <==> !mask.contains(1),
{
    if !mask.contains(1) {
        assert forall|i: int| 0 <= i < mask.len() implies #[trigger] mask[i] != 1 by {
            assert(mask.contains(mask[i]));
        }
    }
}

/// A configuration that names the width of a head needs no division; one that
/// does not must not have zero heads to divide by.
pub proof fn only_a_division_by_zero_is_left_out(config: Json, width: u64, heads: u64)
    ensures
        config.field("head_dim"@) == Some(Json::Number(Some(width as i128))) ==> divisible(config),
        config.field("num_attention_heads"@) == Some(Json::Number(Some(heads as i128))) && heads > 0
            ==> divisible(config),
        config.field("hidden_size"@) is None ==> divisible(config),
{
}

} // verus!
