//! Publication membership and submission shapes.  The surrounding
//! product surface owns publication behaviour; the core only carries
//! these representations.

use vstd::prelude::*;

verus! {

#[derive(Clone, Copy, PartialEq, Eq, Structural, Debug)]
pub enum PublicationRole {
    Owner,
    Editor,
    Writer,
}

#[derive(Clone, Copy, PartialEq, Eq, Structural, Debug)]
pub enum SubmissionStatus {
    Pending,
    Approved,
    Rejected,
    RevisionRequested,
}

pub struct CreatePublicationRequest {
    pub name: String,
    pub description: Option<String>,
    pub logo_url: Option<String>,
    pub banner_url: Option<String>,
    pub website_url: Option<String>,
    pub slug: String,
    pub is_accepting_submissions: Option<bool>,
}

pub struct UpdatePublicationRequest {
    pub name: Option<String>,
    pub description: Option<String>,
    pub logo_url: Option<String>,
    pub banner_url: Option<String>,
    pub website_url: Option<String>,
    pub is_accepting_submissions: Option<bool>,
}

#[derive(Clone, Copy, PartialEq, Eq, Structural, Debug)]
pub struct PublicationInteractions {
    pub is_following: bool,
    pub is_member: bool,
    pub member_role: Option<PublicationRole>,
}

pub struct InviteMemberRequest {
    pub email: String,
    pub role: PublicationRole,
    pub message: Option<String>,
}

pub struct UpdateMemberRoleRequest {
    pub role: PublicationRole,
}

pub struct ReviewSubmissionRequest {
    pub status: SubmissionStatus,
    pub editor_notes: Option<String>,
}

} // verus!
