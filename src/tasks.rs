use vstd::prelude::*;

verus! {

/// The lowercase form of a string.
pub uninterp spec fn lower_of(s: Seq<char>) -> Seq<char>;

/// Relies on `str::to_lowercase`: each character replaced by its Unicode lowercase mapping, so
/// the result depends on the characters alone.
#[verifier::external_body]
fn lowercase(s: &str) -> (r: String)
    ensures
        r@ == lower_of(s@),
{
    s.to_lowercase()
}

/// Where a task stands.
#[derive(Clone, Copy, Debug, PartialEq, Eq, Structural)]
pub enum TaskStatus {
    Todo,
    InProgress,
    Done,
}

/// How urgent a task is.
#[derive(Clone, Copy, Debug, PartialEq, Eq, Structural)]
pub enum TaskPriority {
    Low,
    Medium,
    High,
    Urgent,
}

/// The name of a status.
pub open spec fn status_text(s: TaskStatus) -> Seq<char> {
    match s {
        TaskStatus::Todo => "todo"@,
        TaskStatus::InProgress => "in_progress"@,
        TaskStatus::Done => "done"@,
    }
}

/// The status named by `t`, in lower case.
pub open spec fn status_named(t: Seq<char>) -> Option<TaskStatus> {
    if t == "todo"@ {
        Some(TaskStatus::Todo)
    } else if t == "in_progress"@ {
        Some(TaskStatus::InProgress)
    } else if t == "done"@ {
        Some(TaskStatus::Done)
    } else {
        None
    }
}

/// The name of a priority.
pub open spec fn priority_text(p: TaskPriority) -> Seq<char> {
    match p {
        TaskPriority::Low => "low"@,
        TaskPriority::Medium => "medium"@,
        TaskPriority::High => "high"@,
        TaskPriority::Urgent => "urgent"@,
    }
}

/// The priority named by `t`, in lower case.
pub open spec fn priority_named(t: Seq<char>) -> Option<TaskPriority> {
    if t == "low"@ {
        Some(TaskPriority::Low)
    } else if t == "medium"@ {
        Some(TaskPriority::Medium)
    } else if t == "high"@ {
        Some(TaskPriority::High)
    } else if t == "urgent"@ {
        Some(TaskPriority::Urgent)
    } else {
        None
    }
}

impl TaskStatus {
    /// The status's name: `todo`, `in_progress` or `done`.
    pub fn to_string(&self) -> (r: String)
        ensures
            r@ == status_text(*self),
    {
        match self {
            TaskStatus::Todo => "todo".to_owned(),
            TaskStatus::InProgress => "in_progress".to_owned(),
            TaskStatus::Done => "done".to_owned(),
        }
    }

    /// Reads a status from its name in any letter case; anything else is refused with a message
    /// that quotes the input.
    pub fn parse(s: &str) -> (r: Result<TaskStatus, String>)
        ensures
            match status_named(lower_of(s@)) {
                Some(t) => r == Ok::<TaskStatus, String>(t),
                None => r is Err && r->Err_0@ == "Invalid task status: "@ + s@,
            },
    {
        let lowered = lowercase(s);
        match TaskStatus::from_name(lowered.as_str()) {
            Some(t) => Ok(t),
            None => {
                let mut message = "Invalid task status: ".to_owned();
                message.append(s);
                Err(message)
            },
        }
    }

    /// The status whose name is exactly `t`.
    pub fn from_name(t: &str) -> (r: Option<TaskStatus>)
        ensures
            r == status_named(t@),
    {
        let name = t.to_owned();
        if name == "todo".to_owned() {
            Some(TaskStatus::Todo)
        } else if name == "in_progress".to_owned() {
            Some(TaskStatus::InProgress)
        } else if name == "done".to_owned() {
            Some(TaskStatus::Done)
        } else {
            None
        }
    }
}

impl TaskPriority {
    /// The priority's name: `low`, `medium`, `high` or `urgent`.
    pub fn to_string(&self) -> (r: String)
        ensures
            r@ == priority_text(*self),
    {
        match self {
            TaskPriority::Low => "low".to_owned(),
            TaskPriority::Medium => "medium".to_owned(),
            TaskPriority::High => "high".to_owned(),
            TaskPriority::Urgent => "urgent".to_owned(),
        }
    }

    /// Reads a priority from its name in any letter case; anything else is refused with a
    /// message that quotes the input.
    pub fn parse(s: &str) -> (r: Result<TaskPriority, String>)
        ensures
            match priority_named(lower_of(s@)) {
                Some(p) => r == Ok::<TaskPriority, String>(p),
                None => r is Err && r->Err_0@ == "Invalid task priority: "@ + s@,
            },
    {
        let lowered = lowercase(s);
        match TaskPriority::from_name(lowered.as_str()) {
            Some(p) => Ok(p),
            None => {
                let mut message = "Invalid task priority: ".to_owned();
                message.append(s);
                Err(message)
            },
        }
    }

    /// The priority whose name is exactly `t`.
    pub fn from_name(t: &str) -> (r: Option<TaskPriority>)
        ensures
            r == priority_named(t@),
    {
        let name = t.to_owned();
        if name == "low".to_owned() {
            Some(TaskPriority::Low)
        } else if name == "medium".to_owned() {
            Some(TaskPriority::Medium)
        } else if name == "high".to_owned() {
            Some(TaskPriority::High)
        } else if name == "urgent".to_owned() {
            Some(TaskPriority::Urgent)
        } else {
            None
        }
    }
}

impl std::str::FromStr for TaskStatus {
    type Err = String;

    fn from_str(s: &str) -> Result<Self, Self::Err> {
        TaskStatus::parse(s)
    }
}

impl std::str::FromStr for TaskPriority {
    type Err = String;

    fn from_str(s: &str) -> Result<Self, Self::Err> {
        TaskPriority::parse(s)
    }
}

/// A request to set a task's progress.
#[derive(Clone, Copy, Debug)]
pub struct UpdateProgressRequest {
    pub progress_percent: i32,
}

impl UpdateProgressRequest {
    /// Whether the progress is a percentage, from 0 to 100.
    pub fn is_valid(&self) -> (r: bool)
        ensures
            r == (0 <= self.progress_percent <= 100),
    {
        0 <= self.progress_percent && self.progress_percent <= 100
    }
}

/// A request to add a subtask.
#[derive(Clone, Debug)]
pub struct CreateSubtaskRequest {
    pub title: String,
}

/// A request to change a subtask; a field left `None` stays as it is.
#[derive(Clone, Debug)]
pub struct UpdateSubtaskRequest {
    pub title: Option<String>,
    pub is_completed: Option<bool>,
}

/// A request to add an entry to a task's history.
#[derive(Clone, Debug)]
pub struct CreateTaskHistoryRequest {
    pub comment: String,
    pub completion_percentage: i32,
}

} // verus!
