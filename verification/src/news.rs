//! Publishing a newsletter: sending one mail to every customer who asked for
//! it, through a sender the caller supplies.

use vstd::prelude::*;

verus! {

/// One mail: who it is from, who it goes to, and its text.
#[derive(Clone)]
pub struct Email {
    pub from: String,
    pub to: String,
    pub msg: String,
}

/// A newsletter subscriber: an address, and whether news is wanted there.
pub struct Customer {
    pub address: String,
    pub wants_news: bool,
}

/// Something that can deliver a mail. Implementations are supplied by the
/// caller (a real transport, or a test double); `send_mail` returns the
/// transport's reply on success and `None` when delivery failed.
pub trait EmailSender {
    fn send_mail(&self, msg: &Email) -> Option<String>;
}

/// How many of `customers` want the news — the number of mails a full
/// publication sends.
pub open spec fn count_willing(customers: Seq<Customer>) -> int
    decreases customers.len(),
{
    if customers.len() == 0 {
        0
    } else {
        count_willing(customers.drop_last()) + if customers.last().wants_news {
            1int
        } else {
            0int
        }
    }
}

/// The willing customers are never more than all the customers.
proof fn lemma_count_willing_bounds(customers: Seq<Customer>)
    ensures
        0 <= count_willing(customers) <= customers.len(),
    decreases customers.len(),
{
    if customers.len() > 0 {
        lemma_count_willing_bounds(customers.drop_last());
    }
}

/// Taking one more customer adds one to the count exactly when that customer
/// wants the news.
proof fn lemma_count_willing_take_step(customers: Seq<Customer>, i: int)
    requires
        0 <= i < customers.len(),
    ensures
        count_willing(customers.take(i + 1)) == count_willing(customers.take(i)) + if customers[i].wants_news {
            1int
        } else {
            0int
        },
{
    assert(customers.take(i + 1).drop_last() =~= customers.take(i));
    assert(customers.take(i + 1).last() == customers[i]);
}

/// A prefix never counts more willing customers than the whole.
proof fn lemma_count_willing_take_le(customers: Seq<Customer>, i: int)
    requires
        0 <= i <= customers.len(),
    ensures
        count_willing(customers.take(i)) <= count_willing(customers),
    decreases customers.len() - i,
{
    if i == customers.len() {
        assert(customers.take(i) =~= customers);
    } else {
        lemma_count_willing_take_step(customers, i);
        lemma_count_willing_take_le(customers, i + 1);
    }
}

/// Sends `msg` to every customer who wants the news, as a mail from the
/// newsletter's own address, and returns how many mails went out. Delivery
/// stops at the first mail the sender refuses, and `None` is returned; when no
/// customer wants the news, nothing is sent and the count is zero.
pub fn publish_news<S: EmailSender>(msg: &str, sender: &S, customers: &[Customer]) -> (r: Option<
    i32,
>)
    requires
        count_willing(customers@) <= i32::MAX,
    ensures
        r matches Some(n) ==> n == count_willing(customers@),
        count_willing(customers@) == 0 ==> r == Some(0i32),
{
    let mut count: i32 = 0;
    let mut mail = Email {
        from: "Rust Newsletter".to_owned(),
        to: "".to_owned(),
        msg: msg.to_owned(),
    };
    let n = customers.len();
    proof {
        lemma_count_willing_bounds(customers@);
    }
    for i in 0..n
        invariant
            n == customers@.len(),
            count == count_willing(customers@.take(i as int)),
            count_willing(customers@) <= i32::MAX,
    {
        proof {
            lemma_count_willing_take_step(customers@, i as int);
            lemma_count_willing_take_le(customers@, i as int + 1);
            lemma_count_willing_bounds(customers@.take(i as int));
        }
        let customer = &customers[i];
        if customer.wants_news {
            mail.to = customer.address.clone();
            if sender.send_mail(&mail).is_none() {
                return None;
            }
            count = count + 1;
        }
    }
    proof {
        assert(customers@.take(n as int) =~= customers@);
    }
    Some(count)
}

} // verus!
