//! Receive-lifecycle events, for consumers that follow a receiver's progress.
use vstd::prelude::*;

verus! {

broadcast use vstd::string::group_string_axioms;

/// What happens while receiving, in the order it happens.
#[derive(Debug, Clone)]
pub enum ReceiveEvent {
    /// The receiver is listening.
    Ready { alias: String, port: u16, https: bool, receive_dir: String },
    /// A sender announced files and a session was opened for them.
    TransferStarted { sender_alias: String, file_count: usize },
    /// A text message arrived inline (no file body follows).
    MessageReceived { sender_alias: String, text: String, size: u64 },
    /// One file was written to disk.
    FileSaved { path: String, file_name: String, size: u64 },
    /// Every file of the session was saved.
    TransferComplete,
    /// The session ended with at least one failed file.
    TransferFinishedWithErrors,
    /// The sender cancelled the session.
    TransferCancelled,
    /// The receiver is shutting down.
    Shutdown,
}

pub enum ReceiveEventView {
    Ready { alias: Seq<char>, port: u16, https: bool, receive_dir: Seq<char> },
    TransferStarted { sender_alias: Seq<char>, file_count: usize },
    MessageReceived { sender_alias: Seq<char>, text: Seq<char>, size: u64 },
    FileSaved { path: Seq<char>, file_name: Seq<char>, size: u64 },
    TransferComplete,
    TransferFinishedWithErrors,
    TransferCancelled,
    Shutdown,
}

impl View for ReceiveEvent {
    type V = ReceiveEventView;

    open spec fn view(&self) -> ReceiveEventView {
        match self {
            ReceiveEvent::Ready { alias, port, https, receive_dir } => ReceiveEventView::Ready {
                alias: alias@,
                port: *port,
                https: *https,
                receive_dir: receive_dir@,
            },
            ReceiveEvent::TransferStarted { sender_alias, file_count } => ReceiveEventView::TransferStarted {
                sender_alias: sender_alias@,
                file_count: *file_count,
            },
            ReceiveEvent::MessageReceived { sender_alias, text, size } => ReceiveEventView::MessageReceived {
                sender_alias: sender_alias@,
                text: text@,
                size: *size,
            },
            ReceiveEvent::FileSaved { path, file_name, size } => ReceiveEventView::FileSaved {
                path: path@,
                file_name: file_name@,
                size: *size,
            },
            ReceiveEvent::TransferComplete => ReceiveEventView::TransferComplete,
            ReceiveEvent::TransferFinishedWithErrors => ReceiveEventView::TransferFinishedWithErrors,
            ReceiveEvent::TransferCancelled => ReceiveEventView::TransferCancelled,
            ReceiveEvent::Shutdown => ReceiveEventView::Shutdown,
        }
    }
}

pub open spec fn events_view(v: Seq<ReceiveEvent>) -> Seq<ReceiveEventView> {
    v.map_values(|e: ReceiveEvent| e@)
}

} // verus!
