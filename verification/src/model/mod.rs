pub mod category;
pub mod document;
pub mod donor;
pub mod inventory;
pub mod outbound;
pub mod purchase;
pub mod transaction;
