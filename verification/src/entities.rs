//! Tasks, resources and async operations: what is known of them from the start.

use crate::id_data::{ToProto, Unsent};
use crate::proto::{spawn_kind, AsyncOpMessage, ResourceMessage, TaskMessage, SPAWN_KIND};
use console_api::resources::resource::Kind;
use console_api::{Field, Location};
use vstd::prelude::*;

verus! {

/// A spawned task: `id` is the number of its span and `metadata` that of its
/// callsite.
pub struct Task {
    pub id: u64,
    pub is_dirty: bool,
    pub metadata: u64,
    pub fields: Vec<Field>,
    pub location: Option<Location>,
}

/// A resource, such as a timer or a semaphore.
pub struct Resource {
    pub id: u64,
    pub is_dirty: bool,
    pub parent_id: Option<u64>,
    pub metadata: u64,
    pub concrete_type: String,
    pub kind: Kind,
    pub location: Option<Location>,
    pub is_internal: bool,
}

/// An async operation on a resource.
pub struct AsyncOp {
    pub id: u64,
    pub is_dirty: bool,
    pub parent_id: Option<u64>,
    pub resource_id: u64,
    pub metadata: u64,
    pub source: String,
}

impl Unsent for Task {
    open spec fn unsent(&self) -> bool {
        self.is_dirty
    }

    open spec fn marked_sent(&self) -> Self {
        Task { is_dirty: false, ..*self }
    }

    proof fn lemma_marked_sent(&self) {
    }

    fn take_unsent(&mut self) -> (was_unsent: bool) {
        let was_unsent = self.is_dirty;
        self.is_dirty = false;
        was_unsent
    }

    fn is_unsent(&self) -> (unsent: bool) {
        self.is_dirty
    }
}

impl ToProto for Task {
    type Output = TaskMessage;

    open spec fn encoded_by(&self, message: TaskMessage) -> bool {
        &&& message.id == Some(self.id)
        &&& message.kind == SPAWN_KIND
        &&& message.metadata == Some(self.metadata)
        &&& message.parents@ == Seq::<u64>::empty()
        &&& message.fields@ == self.fields@
        &&& message.location == self.location
    }

    proof fn lemma_encoded_when_sent(&self, message: TaskMessage) {
    }

    fn to_proto(&self) -> (message: TaskMessage) {
        let fields = self.fields.clone();
        assert(fields@ == self.fields@);
        TaskMessage {
            id: Some(self.id),
            kind: spawn_kind(),
            metadata: Some(self.metadata),
            parents: Vec::new(),
            fields,
            location: self.location.clone(),
        }
    }
}

impl Unsent for Resource {
    open spec fn unsent(&self) -> bool {
        self.is_dirty
    }

    open spec fn marked_sent(&self) -> Self {
        Resource { is_dirty: false, ..*self }
    }

    proof fn lemma_marked_sent(&self) {
    }

    fn take_unsent(&mut self) -> (was_unsent: bool) {
        let was_unsent = self.is_dirty;
        self.is_dirty = false;
        was_unsent
    }

    fn is_unsent(&self) -> (unsent: bool) {
        self.is_dirty
    }
}

impl ToProto for Resource {
    type Output = ResourceMessage;

    open spec fn encoded_by(&self, message: ResourceMessage) -> bool {
        message == (ResourceMessage {
            id: Some(self.id),
            parent_resource_id: self.parent_id,
            kind: Some(self.kind),
            metadata: Some(self.metadata),
            concrete_type: self.concrete_type,
            location: self.location,
            is_internal: self.is_internal,
        })
    }

    proof fn lemma_encoded_when_sent(&self, message: ResourceMessage) {
    }

    fn to_proto(&self) -> (message: ResourceMessage) {
        ResourceMessage {
            id: Some(self.id),
            parent_resource_id: self.parent_id,
            kind: Some(self.kind.clone()),
            metadata: Some(self.metadata),
            concrete_type: self.concrete_type.clone(),
            location: self.location.clone(),
            is_internal: self.is_internal,
        }
    }
}

impl Unsent for AsyncOp {
    open spec fn unsent(&self) -> bool {
        self.is_dirty
    }

    open spec fn marked_sent(&self) -> Self {
        AsyncOp { is_dirty: false, ..*self }
    }

    proof fn lemma_marked_sent(&self) {
    }

    fn take_unsent(&mut self) -> (was_unsent: bool) {
        let was_unsent = self.is_dirty;
        self.is_dirty = false;
        was_unsent
    }

    fn is_unsent(&self) -> (unsent: bool) {
        self.is_dirty
    }
}

impl ToProto for AsyncOp {
    type Output = AsyncOpMessage;

    open spec fn encoded_by(&self, message: AsyncOpMessage) -> bool {
        message == (AsyncOpMessage {
            id: Some(self.id),
            metadata: Some(self.metadata),
            resource_id: Some(self.resource_id),
            source: self.source,
            parent_async_op_id: self.parent_id,
        })
    }

    proof fn lemma_encoded_when_sent(&self, message: AsyncOpMessage) {
    }

    fn to_proto(&self) -> (message: AsyncOpMessage) {
        AsyncOpMessage {
            id: Some(self.id),
            metadata: Some(self.metadata),
            resource_id: Some(self.resource_id),
            source: self.source.clone(),
            parent_async_op_id: self.parent_id,
        }
    }
}

} // verus!
