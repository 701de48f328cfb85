//! The order status register: the values an order's status may hold.
//!
//! Any value of the register may replace any other; no transition is ruled
//! out.

use crate::error::{AppError, Failure};
use crate::text::same_text;
use vstd::prelude::*;
use vstd::string::*;

verus! {

/// The lifecycle values of an order.
#[derive(Clone, Copy, Debug, PartialEq, Eq, Structural)]
pub enum OrderStatus {
    Pending,
    Processing,
    Shipped,
    Delivered,
    Cancelled,
}

impl OrderStatus {
    /// The name under which the status is stored and sent.
    pub open spec fn name(self) -> Seq<char> {
        match self {
            OrderStatus::Pending => "pending"@,
            OrderStatus::Processing => "processing"@,
            OrderStatus::Shipped => "shipped"@,
            OrderStatus::Delivered => "delivered"@,
            OrderStatus::Cancelled => "cancelled"@,
        }
    }

    /// The status that a name stands for, if it is the name of one.
    pub open spec fn named(text: Seq<char>) -> Option<OrderStatus> {
        if text == "pending"@ {
            Some(OrderStatus::Pending)
        } else if text == "processing"@ {
            Some(OrderStatus::Processing)
        } else if text == "shipped"@ {
            Some(OrderStatus::Shipped)
        } else if text == "delivered"@ {
            Some(OrderStatus::Delivered)
        } else if text == "cancelled"@ {
            Some(OrderStatus::Cancelled)
        } else {
            None
        }
    }

    /// The status of an order that has just been created.
    pub fn initial() -> (status: OrderStatus)
        ensures
            status == OrderStatus::Pending,
    {
        OrderStatus::Pending
    }

    /// The name under which the status is stored and sent.
    pub fn as_str(&self) -> (name: &'static str)
        ensures
            name@ == self.name(),
    {
        match self {
            OrderStatus::Pending => "pending",
            OrderStatus::Processing => "processing",
            OrderStatus::Shipped => "shipped",
            OrderStatus::Delivered => "delivered",
            OrderStatus::Cancelled => "cancelled",
        }
    }

    /// Reads a status name. Names are matched exactly.
    pub fn parse(text: &str) -> (status: Option<OrderStatus>)
        ensures
            status == OrderStatus::named(text@),
    {
        if same_text(text, "pending") {
            Some(OrderStatus::Pending)
        } else if same_text(text, "processing") {
            Some(OrderStatus::Processing)
        } else if same_text(text, "shipped") {
            Some(OrderStatus::Shipped)
        } else if same_text(text, "delivered") {
            Some(OrderStatus::Delivered)
        } else if same_text(text, "cancelled") {
            Some(OrderStatus::Cancelled)
        } else {
            None
        }
    }

    /// Every status is read back from its own name.
    pub proof fn lemma_name_round_trip(self)
        ensures
            OrderStatus::named(self.name()) == Some(self),
    {
        reveal_strlit("pending");
        reveal_strlit("processing");
        reveal_strlit("shipped");
        reveal_strlit("delivered");
        reveal_strlit("cancelled");
        assert("pending"@.len() == 7);
        assert("processing"@.len() == 10);
        assert("shipped"@[0] == 's');
        assert("delivered"@.len() == 9);
        assert("cancelled"@[0] == 'c');
        assert("delivered"@[0] == 'd');
    }
}

/// The message that rejects a status outside the register; it lists the
/// register.
pub open spec fn invalid_status_message() -> Seq<char> {
    "Invalid status. Must be one of: "@ + "pending"@ + ", "@ + "processing"@ + ", "@ + "shipped"@
        + ", "@ + "delivered"@ + ", "@ + "cancelled"@
}

/// The outcome of checking a requested status: the status it names, or the
/// rejection that lists the register.
pub open spec fn checked_status(text: Seq<char>) -> Result<OrderStatus, Failure> {
    match OrderStatus::named(text) {
        Some(status) => Ok(status),
        None => Err(Failure::BadRequest(invalid_status_message())),
    }
}

/// Checks a requested status against the register.
///
/// Every name of the register is accepted, whatever the order's current
/// status is; anything else is rejected with a message that lists the
/// register.
pub fn validate_status(text: &str) -> (r: Result<OrderStatus, AppError>)
    ensures
        r is Ok <==> checked_status(text@) is Ok,
        r matches Ok(status) ==> checked_status(text@) == Ok::<OrderStatus, Failure>(status),
        r matches Err(e) ==> checked_status(text@) == Err::<OrderStatus, Failure>(e@),
{
    match OrderStatus::parse(text) {
        Some(status) => Ok(status),
        None => {
            let mut message = "Invalid status. Must be one of: ".to_owned();
            message.append(OrderStatus::Pending.as_str());
            message.append(", ");
            message.append(OrderStatus::Processing.as_str());
            message.append(", ");
            message.append(OrderStatus::Shipped.as_str());
            message.append(", ");
            message.append(OrderStatus::Delivered.as_str());
            message.append(", ");
            message.append(OrderStatus::Cancelled.as_str());
            Err(AppError::BadRequest(message))
        },
    }
}

} // verus!
