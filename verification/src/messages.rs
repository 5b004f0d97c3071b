//! The wire messages the engine sends: the streaming subscribe command and
//! every private REST body, each pinned to its exact byte sequence.
//!
//! Keys appear in ascending lexicographic order and optional fields are
//! omitted entirely when absent, matching the venue's wire format.

use vstd::prelude::*;
use vstd::string::StringSliceAdditionalSpecFns;
use crate::json::spec_field;
use crate::json::spec_json_arr;
use crate::json::spec_json_bool;
use crate::json::spec_json_obj;
use crate::json::spec_json_string;
use crate::json::arr;
use crate::json::field;
use crate::json::obj;
use crate::json::val_bool;
use crate::json::val_str;
use crate::json::val_u64;
use crate::textnum::spec_dec;

verus! {

/// The fields of a subscribe command: channel, the literal command, then
/// the optional option and symbol (each omitted when empty — the private
/// stream subscribes by channel alone).
pub open spec fn spec_subscribe_fields(
    channel: Seq<u8>,
    symbol: Seq<u8>,
    option: Seq<u8>,
) -> Seq<Seq<u8>> {
    let fs = Seq::empty().push(spec_field("channel", spec_json_string(channel))).push(
        spec_field("command", spec_json_string("subscribe".spec_bytes())),
    );
    let fs = if option.len() == 0 {
        fs
    } else {
        fs.push(spec_field("option", spec_json_string(option)))
    };
    if symbol.len() == 0 {
        fs
    } else {
        fs.push(spec_field("symbol", spec_json_string(symbol)))
    }
}

/// A subscribe command as sent on the wire.
pub open spec fn spec_subscribe_msg(channel: Seq<u8>, symbol: Seq<u8>, option: Seq<u8>) -> Seq<
    u8,
> {
    spec_json_obj(spec_subscribe_fields(channel, symbol, option))
}

/// Build one subscribe command. An empty `option` or `symbol` is omitted.
pub fn build_subscribe_msg(channel: &[u8], symbol: &[u8], option: &[u8]) -> (r: Vec<u8>)
    ensures
        r@ == spec_subscribe_msg(channel@, symbol@, option@),
{
    let mut fields: Vec<Vec<u8>> = Vec::new();
    let v = val_str(channel);
    fields.push(field("channel", v.as_slice()));
    let v = val_str("subscribe".as_bytes());
    fields.push(field("command", v.as_slice()));
    if option.len() > 0 {
        let v = val_str(option);
        fields.push(field("option", v.as_slice()));
    }
    if symbol.len() > 0 {
        let v = val_str(symbol);
        fields.push(field("symbol", v.as_slice()));
    }
    proof {
        assert(fields.deep_view() =~~= spec_subscribe_fields(channel@, symbol@, option@));
    }
    obj(&fields)
}

/// The body of a new-order request.
pub open spec fn spec_order_body(
    symbol: Seq<u8>,
    side: Seq<u8>,
    execution_type: Seq<u8>,
    size: Seq<u8>,
    price: Option<Seq<u8>>,
    time_in_force: Option<Seq<u8>>,
    cancel_before: Option<bool>,
    losscut_price: Option<Seq<u8>>,
    settle_type: Option<Seq<u8>>,
) -> Seq<u8> {
    let fs = Seq::empty();
    let fs = if cancel_before is Some {
        fs.push(spec_field("cancelBefore", spec_json_bool(cancel_before->0)))
    } else {
        fs
    };
    let fs = fs.push(spec_field("executionType", spec_json_string(execution_type)));
    let fs = if losscut_price is Some {
        fs.push(spec_field("losscutPrice", spec_json_string(losscut_price->0)))
    } else {
        fs
    };
    let fs = if price is Some {
        fs.push(spec_field("price", spec_json_string(price->0)))
    } else {
        fs
    };
    let fs = if settle_type is Some {
        fs.push(spec_field("settleType", spec_json_string(settle_type->0)))
    } else {
        fs
    };
    let fs = fs.push(spec_field("side", spec_json_string(side)));
    let fs = fs.push(spec_field("size", spec_json_string(size)));
    let fs = fs.push(spec_field("symbol", spec_json_string(symbol)));
    let fs = if time_in_force is Some {
        fs.push(spec_field("timeInForce", spec_json_string(time_in_force->0)))
    } else {
        fs
    };
    spec_json_obj(fs)
}

/// Build the body of a new-order request.
pub fn order_body(
    symbol: &[u8],
    side: &[u8],
    execution_type: &[u8],
    size: &[u8],
    price: Option<&[u8]>,
    time_in_force: Option<&[u8]>,
    cancel_before: Option<bool>,
    losscut_price: Option<&[u8]>,
    settle_type: Option<&[u8]>,
) -> (r: Vec<u8>)
    ensures
        r@ == spec_order_body(
            symbol@,
            side@,
            execution_type@,
            size@,
            match price {
                Some(p) => Some(p@),
                None => None,
            },
            match time_in_force {
                Some(t) => Some(t@),
                None => None,
            },
            cancel_before,
            match losscut_price {
                Some(l) => Some(l@),
                None => None,
            },
            match settle_type {
                Some(s) => Some(s@),
                None => None,
            },
        ),
{
    let mut fields: Vec<Vec<u8>> = Vec::new();
    if let Some(cb) = cancel_before {
        let v = val_bool(cb);
        fields.push(field("cancelBefore", v.as_slice()));
    }
    let v = val_str(execution_type);
    fields.push(field("executionType", v.as_slice()));
    if let Some(lp) = losscut_price {
        let v = val_str(lp);
        fields.push(field("losscutPrice", v.as_slice()));
    }
    if let Some(p) = price {
        let v = val_str(p);
        fields.push(field("price", v.as_slice()));
    }
    if let Some(st) = settle_type {
        let v = val_str(st);
        fields.push(field("settleType", v.as_slice()));
    }
    let v = val_str(side);
    fields.push(field("side", v.as_slice()));
    let v = val_str(size);
    fields.push(field("size", v.as_slice()));
    let v = val_str(symbol);
    fields.push(field("symbol", v.as_slice()));
    if let Some(tif) = time_in_force {
        let v = val_str(tif);
        fields.push(field("timeInForce", v.as_slice()));
    }
    let r = obj(&fields);
    proof {
        assert(r@ =~~= spec_order_body(
            symbol@,
            side@,
            execution_type@,
            size@,
            match price {
                Some(p) => Some(p@),
                None => None,
            },
            match time_in_force {
                Some(t) => Some(t@),
                None => None,
            },
            cancel_before,
            match losscut_price {
                Some(l) => Some(l@),
                None => None,
            },
            match settle_type {
                Some(s) => Some(s@),
                None => None,
            },
        )) by {
            assert(fields.deep_view() =~~= {
                let fs = Seq::empty();
                let fs = if cancel_before is Some {
                    fs.push(spec_field("cancelBefore", spec_json_bool(cancel_before->0)))
                } else {
                    fs
                };
                let fs = fs.push(spec_field("executionType", spec_json_string(execution_type@)));
                let fs = if losscut_price is Some {
                    fs.push(spec_field("losscutPrice", spec_json_string(losscut_price->0@)))
                } else {
                    fs
                };
                let fs = if price is Some {
                    fs.push(spec_field("price", spec_json_string(price->0@)))
                } else {
                    fs
                };
                let fs = if settle_type is Some {
                    fs.push(spec_field("settleType", spec_json_string(settle_type->0@)))
                } else {
                    fs
                };
                let fs = fs.push(spec_field("side", spec_json_string(side@)));
                let fs = fs.push(spec_field("size", spec_json_string(size@)));
                let fs = fs.push(spec_field("symbol", spec_json_string(symbol@)));
                if time_in_force is Some {
                    fs.push(spec_field("timeInForce", spec_json_string(time_in_force->0@)))
                } else {
                    fs
                }
            });
        }
    }
    r
}

/// The body of a price-amendment request.
pub open spec fn spec_change_order_body(
    order_id: nat,
    price: Seq<u8>,
    losscut_price: Option<Seq<u8>>,
) -> Seq<u8> {
    let fs = Seq::empty();
    let fs = if losscut_price is Some {
        fs.push(spec_field("losscutPrice", spec_json_string(losscut_price->0)))
    } else {
        fs
    };
    let fs = fs.push(spec_field("orderId", spec_dec(order_id)));
    let fs = fs.push(spec_field("price", spec_json_string(price)));
    spec_json_obj(fs)
}

/// Build the body of a price-amendment request.
pub fn change_order_body(order_id: u64, price: &[u8], losscut_price: Option<&[u8]>) -> (r: Vec<
    u8,
>)
    ensures
        r@ == spec_change_order_body(
            order_id as nat,
            price@,
            match losscut_price {
                Some(l) => Some(l@),
                None => None,
            },
        ),
{
    let mut fields: Vec<Vec<u8>> = Vec::new();
    if let Some(lp) = losscut_price {
        let v = val_str(lp);
        fields.push(field("losscutPrice", v.as_slice()));
    }
    let v = val_u64(order_id);
    fields.push(field("orderId", v.as_slice()));
    let v = val_str(price);
    fields.push(field("price", v.as_slice()));
    proof {
        assert(fields.deep_view() =~~= {
            let fs = Seq::empty();
            let fs = if losscut_price is Some {
                fs.push(spec_field("losscutPrice", spec_json_string(losscut_price->0@)))
            } else {
                fs
            };
            let fs = fs.push(spec_field("orderId", spec_dec(order_id as nat)));
            fs.push(spec_field("price", spec_json_string(price@)))
        });
    }
    obj(&fields)
}

/// The body of a single-order cancellation.
pub open spec fn spec_cancel_order_body(order_id: nat) -> Seq<u8> {
    spec_json_obj(Seq::empty().push(spec_field("orderId", spec_dec(order_id))))
}

/// Build the body of a single-order cancellation.
pub fn cancel_order_body(order_id: u64) -> (r: Vec<u8>)
    ensures
        r@ == spec_cancel_order_body(order_id as nat),
{
    let mut fields: Vec<Vec<u8>> = Vec::new();
    let v = val_u64(order_id);
    fields.push(field("orderId", v.as_slice()));
    proof {
        assert(fields.deep_view() =~~= Seq::empty().push(
            spec_field("orderId", spec_dec(order_id as nat)),
        ));
    }
    obj(&fields)
}

/// The rendered elements of a list of order ids.
pub open spec fn spec_id_items(ids: Seq<u64>) -> Seq<Seq<u8>> {
    Seq::new(ids.len(), |i: int| spec_dec(ids[i] as nat))
}

/// The body of a many-order cancellation.
pub open spec fn spec_cancel_orders_body(ids: Seq<u64>) -> Seq<u8> {
    spec_json_obj(
        Seq::empty().push(spec_field("orderIds", spec_json_arr(spec_id_items(ids)))),
    )
}

/// Build the body of a many-order cancellation.
pub fn cancel_orders_body(ids: &Vec<u64>) -> (r: Vec<u8>)
    ensures
        r@ == spec_cancel_orders_body(ids@),
{
    let mut items: Vec<Vec<u8>> = Vec::new();
    let mut i: usize = 0;
    while i < ids.len()
        invariant
            0 <= i <= ids@.len(),
            items@.len() == i,
            forall|m: int| 0 <= m < i ==> (#[trigger] items@[m])@ == spec_dec(ids@[m] as nat),
        decreases ids@.len() - i,
    {
        items.push(val_u64(ids[i]));
        i = i + 1;
    }
    proof {
        crate::json::lemma_vecvec_deep_view(&items);
        assert(items.deep_view() =~~= spec_id_items(ids@));
    }
    let a = arr(&items);
    let mut fields: Vec<Vec<u8>> = Vec::new();
    fields.push(field("orderIds", a.as_slice()));
    proof {
        assert(fields.deep_view() =~~= Seq::empty().push(
            spec_field("orderIds", spec_json_arr(spec_id_items(ids@))),
        ));
    }
    obj(&fields)
}

/// The rendered elements of a list of symbols.
pub open spec fn spec_symbol_items(symbols: Seq<Seq<u8>>) -> Seq<Seq<u8>> {
    Seq::new(symbols.len(), |i: int| spec_json_string(symbols[i]))
}

/// The body of a bulk cancellation by symbol.
pub open spec fn spec_cancel_bulk_body(symbols: Seq<Seq<u8>>, side: Option<Seq<u8>>) -> Seq<
    u8,
> {
    let fs = Seq::empty();
    let fs = if side is Some {
        fs.push(spec_field("side", spec_json_string(side->0)))
    } else {
        fs
    };
    let fs = fs.push(spec_field("symbols", spec_json_arr(spec_symbol_items(symbols))));
    spec_json_obj(fs)
}

/// Build the body of a bulk cancellation by symbol.
pub fn cancel_bulk_body(symbols: &Vec<Vec<u8>>, side: Option<&[u8]>) -> (r: Vec<u8>)
    ensures
        r@ == spec_cancel_bulk_body(
            symbols.deep_view(),
            match side {
                Some(s) => Some(s@),
                None => None,
            },
        ),
{
    let mut items: Vec<Vec<u8>> = Vec::new();
    let mut i: usize = 0;
    while i < symbols.len()
        invariant
            0 <= i <= symbols@.len(),
            items@.len() == i,
            forall|m: int|
                0 <= m < i ==> (#[trigger] items@[m])@ == spec_json_string(symbols@[m]@),
        decreases symbols@.len() - i,
    {
        items.push(val_str(symbols[i].as_slice()));
        i = i + 1;
    }
    proof {
        crate::json::lemma_vecvec_deep_view(&items);
        crate::json::lemma_vecvec_deep_view(symbols);
        assert(items.deep_view() =~~= spec_symbol_items(symbols.deep_view()));
    }
    let a = arr(&items);
    let mut fields: Vec<Vec<u8>> = Vec::new();
    if let Some(s) = side {
        let v = val_str(s);
        fields.push(field("side", v.as_slice()));
    }
    fields.push(field("symbols", a.as_slice()));
    proof {
        assert(fields.deep_view() =~~= {
            let fs = Seq::empty();
            let fs = if side is Some {
                fs.push(spec_field("side", spec_json_string(side->0@)))
            } else {
                fs
            };
            fs.push(spec_field("symbols", spec_json_arr(spec_symbol_items(symbols.deep_view()))))
        });
    }
    obj(&fields)
}

/// The body of a token acquisition, renewal or release.
pub open spec fn spec_token_body(token: Seq<u8>) -> Seq<u8> {
    spec_json_obj(Seq::empty().push(spec_field("token", spec_json_string(token))))
}

/// Build the body naming a streaming token.
pub fn token_body(token: &[u8]) -> (r: Vec<u8>)
    ensures
        r@ == spec_token_body(token@),
{
    let mut fields: Vec<Vec<u8>> = Vec::new();
    let v = val_str(token);
    fields.push(field("token", v.as_slice()));
    proof {
        assert(fields.deep_view() =~~= Seq::empty().push(
            spec_field("token", spec_json_string(token@)),
        ));
    }
    obj(&fields)
}

/// The body of a loss-cut-price adjustment.
pub open spec fn spec_losscut_body(position_id: nat, losscut_price: Seq<u8>) -> Seq<u8> {
    let fs = Seq::empty().push(spec_field("losscutPrice", spec_json_string(losscut_price))).push(
        spec_field("positionId", spec_dec(position_id)),
    );
    spec_json_obj(fs)
}

/// Build the body of a loss-cut-price adjustment.
pub fn losscut_body(position_id: u64, losscut_price: &[u8]) -> (r: Vec<u8>)
    ensures
        r@ == spec_losscut_body(position_id as nat, losscut_price@),
{
    let mut fields: Vec<Vec<u8>> = Vec::new();
    let v = val_str(losscut_price);
    fields.push(field("losscutPrice", v.as_slice()));
    let v = val_u64(position_id);
    fields.push(field("positionId", v.as_slice()));
    proof {
        assert(fields.deep_view() =~~= Seq::empty().push(
            spec_field("losscutPrice", spec_json_string(losscut_price@)),
        ).push(spec_field("positionId", spec_dec(position_id as nat))));
    }
    obj(&fields)
}

/// One settled position inside a close-order body.
pub open spec fn spec_settle_entry(position_id: nat, size: Seq<u8>) -> Seq<u8> {
    spec_json_obj(
        Seq::empty().push(spec_field("positionId", spec_dec(position_id))).push(
            spec_field("size", spec_json_string(size)),
        ),
    )
}

/// The rendered elements of a settle-position list.
pub open spec fn spec_settle_items(sp: Seq<(u64, Vec<u8>)>) -> Seq<Seq<u8>> {
    Seq::new(sp.len(), |i: int| spec_settle_entry(sp[i].0 as nat, sp[i].1@))
}

/// The body of a position-closing order.
pub open spec fn spec_close_order_body(
    symbol: Seq<u8>,
    side: Seq<u8>,
    execution_type: Seq<u8>,
    settle_position: Seq<(u64, Vec<u8>)>,
    price: Option<Seq<u8>>,
    time_in_force: Option<Seq<u8>>,
) -> Seq<u8> {
    let fs = Seq::empty().push(spec_field("executionType", spec_json_string(execution_type)));
    let fs = if price is Some {
        fs.push(spec_field("price", spec_json_string(price->0)))
    } else {
        fs
    };
    let fs = fs.push(
        spec_field("settlePosition", spec_json_arr(spec_settle_items(settle_position))),
    );
    let fs = fs.push(spec_field("side", spec_json_string(side)));
    let fs = fs.push(spec_field("symbol", spec_json_string(symbol)));
    let fs = if time_in_force is Some {
        fs.push(spec_field("timeInForce", spec_json_string(time_in_force->0)))
    } else {
        fs
    };
    spec_json_obj(fs)
}

/// Build the body of a position-closing order.
pub fn close_order_body(
    symbol: &[u8],
    side: &[u8],
    execution_type: &[u8],
    settle_position: &Vec<(u64, Vec<u8>)>,
    price: Option<&[u8]>,
    time_in_force: Option<&[u8]>,
) -> (r: Vec<u8>)
    ensures
        r@ == spec_close_order_body(
            symbol@,
            side@,
            execution_type@,
            settle_position@,
            match price {
                Some(p) => Some(p@),
                None => None,
            },
            match time_in_force {
                Some(t) => Some(t@),
                None => None,
            },
        ),
{
    let mut items: Vec<Vec<u8>> = Vec::new();
    let mut i: usize = 0;
    while i < settle_position.len()
        invariant
            0 <= i <= settle_position@.len(),
            items@.len() == i,
            forall|m: int|
                0 <= m < i ==> (#[trigger] items@[m])@ == spec_settle_entry(
                    settle_position@[m].0 as nat,
                    settle_position@[m].1@,
                ),
        decreases settle_position@.len() - i,
    {
        let pid = settle_position[i].0;
        let mut entry_fields: Vec<Vec<u8>> = Vec::new();
        let v = val_u64(pid);
        entry_fields.push(field("positionId", v.as_slice()));
        let v = val_str(settle_position[i].1.as_slice());
        entry_fields.push(field("size", v.as_slice()));
        proof {
            assert(entry_fields.deep_view() =~~= Seq::empty().push(
                spec_field("positionId", spec_dec(pid as nat)),
            ).push(spec_field("size", spec_json_string(settle_position@[i as int].1@))));
        }
        items.push(obj(&entry_fields));
        i = i + 1;
    }
    proof {
        crate::json::lemma_vecvec_deep_view(&items);
        assert(items.deep_view() =~~= spec_settle_items(settle_position@));
    }
    let a = arr(&items);
    let mut fields: Vec<Vec<u8>> = Vec::new();
    let v = val_str(execution_type);
    fields.push(field("executionType", v.as_slice()));
    if let Some(p) = price {
        let v = val_str(p);
        fields.push(field("price", v.as_slice()));
    }
    fields.push(field("settlePosition", a.as_slice()));
    let v = val_str(side);
    fields.push(field("side", v.as_slice()));
    let v = val_str(symbol);
    fields.push(field("symbol", v.as_slice()));
    if let Some(tif) = time_in_force {
        let v = val_str(tif);
        fields.push(field("timeInForce", v.as_slice()));
    }
    proof {
        assert(fields.deep_view() =~~= {
            let fs = Seq::empty().push(
                spec_field("executionType", spec_json_string(execution_type@)),
            );
            let fs = if price is Some {
                fs.push(spec_field("price", spec_json_string(price->0@)))
            } else {
                fs
            };
            let fs = fs.push(
                spec_field(
                    "settlePosition",
                    spec_json_arr(spec_settle_items(settle_position@)),
                ),
            );
            let fs = fs.push(spec_field("side", spec_json_string(side@)));
            let fs = fs.push(spec_field("symbol", spec_json_string(symbol@)));
            if time_in_force is Some {
                fs.push(spec_field("timeInForce", spec_json_string(time_in_force->0@)))
            } else {
                fs
            }
        });
    }
    obj(&fields)
}

/// The body of a bulk position-closing order.
pub open spec fn spec_close_bulk_body(
    symbol: Seq<u8>,
    side: Seq<u8>,
    execution_type: Seq<u8>,
    size: Seq<u8>,
    price: Option<Seq<u8>>,
    time_in_force: Option<Seq<u8>>,
) -> Seq<u8> {
    let fs = Seq::empty().push(spec_field("executionType", spec_json_string(execution_type)));
    let fs = if price is Some {
        fs.push(spec_field("price", spec_json_string(price->0)))
    } else {
        fs
    };
    let fs = fs.push(spec_field("side", spec_json_string(side)));
    let fs = fs.push(spec_field("size", spec_json_string(size)));
    let fs = fs.push(spec_field("symbol", spec_json_string(symbol)));
    let fs = if time_in_force is Some {
        fs.push(spec_field("timeInForce", spec_json_string(time_in_force->0)))
    } else {
        fs
    };
    spec_json_obj(fs)
}

/// Build the body of a bulk position-closing order.
pub fn close_bulk_body(
    symbol: &[u8],
    side: &[u8],
    execution_type: &[u8],
    size: &[u8],
    price: Option<&[u8]>,
    time_in_force: Option<&[u8]>,
) -> (r: Vec<u8>)
    ensures
        r@ == spec_close_bulk_body(
            symbol@,
            side@,
            execution_type@,
            size@,
            match price {
                Some(p) => Some(p@),
                None => None,
            },
            match time_in_force {
                Some(t) => Some(t@),
                None => None,
            },
        ),
{
    let mut fields: Vec<Vec<u8>> = Vec::new();
    let v = val_str(execution_type);
    fields.push(field("executionType", v.as_slice()));
    if let Some(p) = price {
        let v = val_str(p);
        fields.push(field("price", v.as_slice()));
    }
    let v = val_str(side);
    fields.push(field("side", v.as_slice()));
    let v = val_str(size);
    fields.push(field("size", v.as_slice()));
    let v = val_str(symbol);
    fields.push(field("symbol", v.as_slice()));
    if let Some(tif) = time_in_force {
        let v = val_str(tif);
        fields.push(field("timeInForce", v.as_slice()));
    }
    proof {
        assert(fields.deep_view() =~~= {
            let fs = Seq::empty().push(
                spec_field("executionType", spec_json_string(execution_type@)),
            );
            let fs = if price is Some {
                fs.push(spec_field("price", spec_json_string(price->0@)))
            } else {
                fs
            };
            let fs = fs.push(spec_field("side", spec_json_string(side@)));
            let fs = fs.push(spec_field("size", spec_json_string(size@)));
            let fs = fs.push(spec_field("symbol", spec_json_string(symbol@)));
            if time_in_force is Some {
                fs.push(spec_field("timeInForce", spec_json_string(time_in_force->0@)))
            } else {
                fs
            }
        });
    }
    obj(&fields)
}

} // verus!
