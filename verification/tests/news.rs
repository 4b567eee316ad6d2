use std::cell::RefCell;

use cookbook::news::{Customer, Email, EmailSender};

struct MockEmailSender {
    sent_mails: RefCell<Vec<Email>>,
}

impl MockEmailSender {
    fn new() -> Self {
        MockEmailSender { sent_mails: RefCell::new(Vec::new()) }
    }
}

impl EmailSender for MockEmailSender {
    fn send_mail(&self, msg: &Email) -> Option<String> {
        self.sent_mails.borrow_mut().push(msg.clone());
        Some("200 OK".to_string())
    }
}

/// A transport that refuses every mail.
struct FailingEmailSender;

impl EmailSender for FailingEmailSender {
    fn send_mail(&self, _msg: &Email) -> Option<String> {
        None
    }
}

fn publish_news(msg: &str, sender: &impl EmailSender, customers: &[Customer]) -> Option<i32> {
    cookbook::news::publish_news(msg, sender, customers)
}

#[test]
fn sends_zero_to_zero_customers() {
    let sent = publish_news("hello world!", &MockEmailSender::new(), &[]);
    assert_eq!(Some(0), sent)
}

#[test]
fn sends_one_to_one_willing() {
    let customer = Customer {
        address: "herbert@herbert.com".to_string(),
        wants_news: true,
    };
    let sent = publish_news("Hello world!", &MockEmailSender::new(), &[customer]);
    assert_eq!(Some(1), sent)
}

#[test]
fn sends_none_to_unwilling() {
    let customer_one = Customer {
        address: "herbert@herbert.com".to_string(),
        wants_news: false,
    };
    let customer_two = Customer {
        address: "michael@jackson.com".to_string(),
        wants_news: false,
    };
    let sent = publish_news(
        "hello world!",
        &MockEmailSender::new(),
        &[customer_one, customer_two],
    );
    assert_eq!(Some(0), sent)
}

#[test]
fn sends_correct_mail() {
    let customer = Customer {
        address: "herbert@herbert.com".to_string(),
        wants_news: true,
    };
    let sender = MockEmailSender::new();
    publish_news("hello world!", &sender, &[customer]).expect("Failed to send mail");

    let mails = sender.sent_mails.borrow();
    assert_eq!(1, mails.len());
    assert_eq!("Rust Newsletter", mails[0].from);
    assert_eq!("herbert@herbert.com", mails[0].to);
    assert_eq!("hello world!", mails[0].msg)
}

#[test]
fn failing_sender_reports_none() {
    let customer = Customer {
        address: "herbert@herbert.com".to_string(),
        wants_news: true,
    };
    let sent = publish_news("hello world!", &FailingEmailSender, &[customer]);
    assert_eq!(None, sent)
}

#[test]
fn failing_sender_without_willing_customers_still_counts_zero() {
    let customer = Customer {
        address: "herbert@herbert.com".to_string(),
        wants_news: false,
    };
    let sent = publish_news("hello world!", &FailingEmailSender, &[customer]);
    assert_eq!(Some(0), sent)
}

#[test]
fn counts_only_willing_customers() {
    let customers = vec![
        Customer { address: "a@a.com".to_string(), wants_news: true },
        Customer { address: "b@b.com".to_string(), wants_news: false },
        Customer { address: "c@c.com".to_string(), wants_news: true },
    ];
    let sender = MockEmailSender::new();
    let sent = publish_news("news!", &sender, &customers);
    assert_eq!(Some(2), sent);
    let mails = sender.sent_mails.borrow();
    assert_eq!(2, mails.len());
    assert_eq!("a@a.com", mails[0].to);
    assert_eq!("c@c.com", mails[1].to);
}
