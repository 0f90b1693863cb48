//! Projects: the deployment wrapper around one schema graph.

use vstd::prelude::*;
use crate::error::CoreError;
use crate::schema::{InternalDataModel, InternalDataModelTemplate};

verus! {

/// Description a project is built from; the schema description nested in
/// it becomes the project's schema graph.
pub struct ProjectTemplate {
    pub id: String,
    pub internal_data_model: InternalDataModelTemplate,
    pub manifestation: ProjectManifestation,
    pub revision: Revision,
}

/// A deployed project: its id, its built schema graph, and its revision.
pub struct Project {
    pub id: String,
    pub internal_data_model: InternalDataModel,
    pub revision: Revision,
}

/// Revision counter of a deployed project.
#[derive(Debug, PartialEq, Eq, Structural, Clone, Copy)]
pub struct Revision(pub u32);

impl Default for Revision {
    /// The first revision.
    fn default() -> (r: Revision)
        ensures
            r.0 == 1,
    {
        Revision(1)
    }
}

/// A flag that defaults to set.
#[derive(Debug, PartialEq, Eq, Structural, Clone, Copy)]
pub struct DefaultTrue(pub bool);

impl Default for DefaultTrue {
    /// Set unless said otherwise.
    fn default() -> (r: DefaultTrue)
        ensures
            r.0 == true,
    {
        DefaultTrue(true)
    }
}

/// A server-side function attached to a project.
#[derive(Debug)]
pub struct Function {
    pub name: String,
    pub is_active: bool,
    pub delivery: FunctionDelivery,
    pub type_code: FunctionType,
}

/// How a function's results are delivered.
#[derive(Debug, PartialEq, Eq, Structural, Clone, Copy)]
pub enum FunctionDelivery {
    WebhookDelivery,
}

/// The kind of a function.
#[derive(Debug, PartialEq, Eq, Structural, Clone, Copy)]
pub enum FunctionType {
    ServerSideSubscription,
}

/// Where a project's data lives: an explicit schema or database name.
#[derive(Debug)]
pub struct ProjectManifestation {
    pub database: Option<String>,
    pub schema: Option<String>,
}

impl Default for ProjectManifestation {
    /// No explicit manifestation.
    fn default() -> (r: ProjectManifestation)
        ensures
            r.database is None && r.schema is None,
    {
        ProjectManifestation { database: None, schema: None }
    }
}

impl ProjectTemplate {
    /// The database name of the project: the manifestation's schema name
    /// first, then its database name, then the project id.
    pub fn db_name(&self) -> (r: String)
        ensures
            r@ == self.spec_db_name(),
    {
        match (&self.manifestation.schema, &self.manifestation.database) {
            (Some(schema), _) => schema.clone(),
            (None, Some(database)) => database.clone(),
            (None, None) => self.id.clone(),
        }
    }

    /// The database name the template denotes.
    pub open spec fn spec_db_name(&self) -> Seq<char> {
        match (self.manifestation.schema, self.manifestation.database) {
            (Some(schema), _) => schema@,
            (None, Some(database)) => database@,
            (None, None) => self.id@,
        }
    }

    /// Builds the project: the schema description is built into the
    /// graph under the project's database name.
    pub fn build(self) -> (r: Result<Project, CoreError>)
        ensures
            r is Ok <==> self.internal_data_model.spec_template_ok(),
            r matches Ok(p) ==> p.internal_data_model.wf()
                && self.internal_data_model.corresponds(p.internal_data_model) && p.id@ == self.id@
                && p.internal_data_model.spec_db_name() == self.spec_db_name(),
            r matches Err(e) ==> e.is_validation() || e.is_not_found(),
    {
        let db_name = self.db_name();
        let id = self.id;
        let revision = self.revision;
        let graph = match self.internal_data_model.build(db_name) {
            Ok(g) => g,
            Err(e) => {
                return Err(e);
            },
        };
        Ok(Project { id, internal_data_model: graph, revision })
    }
}

impl Project {
    /// The project's schema graph.
    pub fn internal_data_model(&self) -> (r: &InternalDataModel)
        ensures
            r == &self.internal_data_model,
    {
        &self.internal_data_model
    }
}

} // verus!
