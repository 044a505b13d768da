
use fmodel_decider_rust::{
    create_workflow_process, DeciderTrait, ProcessTrait, TaskStatus, ViewTrait, WorkflowEvent, WorkflowState,
};

#[test]
fn restaurant_order_workflow_complete_flow() {
    // Restaurant order task types
    #[derive(Debug, Clone, PartialEq, Hash, Eq)]
    enum RestaurantTask {
        ValidateOrder,
        CheckInventory,
        ProcessPayment,
        PrepareFood,
        QualityCheck,
        PackageOrder,
        AssignDelivery,
        DeliverOrder,
        ConfirmDelivery,
    }

    // Restaurant action results
    #[derive(Debug, Clone, PartialEq)]
    struct RestaurantActionResult {
        task: RestaurantTask,
        success: bool,
        details: String,
        order_id: String,
    }

    // Restaurant workflow actions
    #[derive(Debug, Clone, PartialEq)]
    enum RestaurantAction {
        StartTask(RestaurantTask),
        NotifyKitchen(String),
        NotifyCustomer(String),
        UpdateInventory(String),
    }

    let restaurant_workflow = create_workflow_process(
        "restaurant-order-wf-001".to_string(),
        vec![
            RestaurantTask::ValidateOrder,
            RestaurantTask::CheckInventory,
            RestaurantTask::ProcessPayment,
            RestaurantTask::PrepareFood,
            RestaurantTask::QualityCheck,
            RestaurantTask::PackageOrder,
            RestaurantTask::AssignDelivery,
            RestaurantTask::DeliverOrder,
            RestaurantTask::ConfirmDelivery,
        ],
        // Decision function: how action results generate events (simplified to 2 event types)
        |action_result: &RestaurantActionResult, _state: &WorkflowState<RestaurantTask>| {
            let workflow_id = "restaurant-order-wf-001".to_string();

            if action_result.success {
                match action_result.task {
                    RestaurantTask::ValidateOrder => Ok(vec![
                        WorkflowEvent::TaskStarted {
                            task: RestaurantTask::ValidateOrder,
                            workflow_id: workflow_id.clone(),
                        },
                        WorkflowEvent::TaskCompleted {
                            task: RestaurantTask::ValidateOrder,
                            workflow_id,
                            result: format!(
                                "Order {} validated: {}",
                                action_result.order_id, action_result.details
                            ),
                        },
                    ]),
                    _ => Ok(vec![
                        WorkflowEvent::TaskStarted {
                            task: action_result.task.clone(),
                            workflow_id: workflow_id.clone(),
                        },
                        WorkflowEvent::TaskCompleted {
                            task: action_result.task.clone(),
                            workflow_id,
                            result: format!(
                                "Task {:?} completed for order {}: {}",
                                action_result.task,
                                action_result.order_id,
                                action_result.details
                            ),
                        },
                    ]),
                }
            } else {
                // For failures, we need to handle them in the state directly
                // Since we only have TaskStarted and TaskCompleted events,
                // we'll use the action generator to handle failure logic
                Ok(vec![]) // No events for failures - handle in action generator
            }
        },
        // Action generator: what actions are available based on state and events
        |state: &WorkflowState<RestaurantTask>,
         event: Option<&WorkflowEvent<RestaurantTask>>| {
            let mut actions = Vec::new();

            match event {
                Some(WorkflowEvent::TaskCompleted { task, .. }) => {
                    // Event-specific actions: what to do when specific tasks complete
                    match task {
                        RestaurantTask::ValidateOrder => {
                            actions.push(RestaurantAction::StartTask(
                                RestaurantTask::CheckInventory,
                            ));
                            actions.push(RestaurantAction::NotifyKitchen(
                                "New order validated".to_string(),
                            ));
                        }
                        RestaurantTask::CheckInventory => {
                            actions.push(RestaurantAction::StartTask(
                                RestaurantTask::ProcessPayment,
                            ));
                            actions.push(RestaurantAction::UpdateInventory(
                                "Reserve ingredients".to_string(),
                            ));
                        }
                        RestaurantTask::ProcessPayment => {
                            actions
                                .push(RestaurantAction::StartTask(RestaurantTask::PrepareFood));
                            actions.push(RestaurantAction::NotifyKitchen(
                                "Payment confirmed, start cooking".to_string(),
                            ));
                        }
                        RestaurantTask::PrepareFood => {
                            actions.push(RestaurantAction::StartTask(
                                RestaurantTask::QualityCheck,
                            ));
                        }
                        RestaurantTask::QualityCheck => {
                            actions.push(RestaurantAction::StartTask(
                                RestaurantTask::PackageOrder,
                            ));
                        }
                        RestaurantTask::PackageOrder => {
                            actions.push(RestaurantAction::StartTask(
                                RestaurantTask::AssignDelivery,
                            ));
                        }
                        RestaurantTask::AssignDelivery => {
                            actions.push(RestaurantAction::StartTask(
                                RestaurantTask::DeliverOrder,
                            ));
                            actions.push(RestaurantAction::NotifyCustomer(
                                "Driver assigned, order on the way".to_string(),
                            ));
                        }
                        RestaurantTask::DeliverOrder => {
                            actions.push(RestaurantAction::StartTask(
                                RestaurantTask::ConfirmDelivery,
                            ));
                        }
                        RestaurantTask::ConfirmDelivery => {
                            actions.push(RestaurantAction::NotifyCustomer(
                                "Order delivered successfully".to_string(),
                            ));
                        }
                    }
                }
                Some(WorkflowEvent::TaskStarted { .. }) => {
                    // Task started events don't typically trigger immediate actions
                    // Actions are usually triggered by completion
                }
                None => {
                    // Complete ToDo list: all actions available in current state
                    // In the simplified model, we need to track which tasks are available to start
                    // This would typically be managed by the application logic

                    // For demonstration, let's assume we can start ValidateOrder if nothing has started
                    if state.tasks.is_empty() {
                        actions
                            .push(RestaurantAction::StartTask(RestaurantTask::ValidateOrder));
                    }

                    // Add general management actions based on current state
                    if !state.running_tasks().is_empty() {
                        actions.push(RestaurantAction::NotifyKitchen(
                            "Tasks in progress".to_string(),
                        ));
                    }
                }
            }

            actions
        },
    );

    // Test initial state
    let mut current_state = restaurant_workflow.initial_state();
    assert_eq!(current_state.workflow_id, "restaurant-order-wf-001");
    assert!(current_state.tasks.is_empty()); // No tasks started yet in simplified model

    // Test complete ToDo list for initial state
    let all_initial_actions = restaurant_workflow.pending(&current_state);
    assert!(
        all_initial_actions
            .contains(&RestaurantAction::StartTask(RestaurantTask::ValidateOrder))
    );

    // Simulate successful order validation
    let validate_result = RestaurantActionResult {
        task: RestaurantTask::ValidateOrder,
        success: true,
        details: "Order items valid, customer verified".to_string(),
        order_id: "ORD-001".to_string(),
    };

    let validation_events: Vec<_> = restaurant_workflow
        .decide(&validate_result, &current_state)
        .unwrap()
        .into_iter()
        .collect();

    assert_eq!(validation_events.len(), 2); // TaskStarted + TaskCompleted

    // Apply events to evolve state
    for event in &validation_events {
        current_state = restaurant_workflow.evolve(&current_state, event);
    }

    // Verify task is now finished in the simplified state
    assert!(current_state.is_task_finished(&RestaurantTask::ValidateOrder));
    assert_eq!(
        current_state.task_status(&RestaurantTask::ValidateOrder),
        Some(&TaskStatus::Finished)
    );

    // Test event-specific actions for validation completion
    let validation_completed_event = &validation_events[1]; // TaskCompleted event
    let validation_actions =
        restaurant_workflow.react(&current_state, validation_completed_event);

    assert!(
        validation_actions
            .contains(&RestaurantAction::StartTask(RestaurantTask::CheckInventory))
    );
    assert!(
        validation_actions
            .iter()
            .any(|a| matches!(a, RestaurantAction::NotifyKitchen(_)))
    );

    // Simulate inventory check success
    let inventory_result = RestaurantActionResult {
        task: RestaurantTask::CheckInventory,
        success: true,
        details: "Ingredients available".to_string(),
        order_id: "ORD-001".to_string(),
    };

    let inventory_events: Vec<_> = restaurant_workflow
        .decide(&inventory_result, &current_state)
        .unwrap()
        .into_iter()
        .collect();

    assert_eq!(inventory_events.len(), 2); // TaskStarted + TaskCompleted

    // Apply inventory events
    for event in &inventory_events {
        current_state = restaurant_workflow.evolve(&current_state, event);
    }

    // Verify both tasks are now finished
    assert!(current_state.is_task_finished(&RestaurantTask::ValidateOrder));
    assert!(current_state.is_task_finished(&RestaurantTask::CheckInventory));

    // Verify the simplified state structure
    assert_eq!(current_state.finished_tasks().len(), 2);
    assert!(
        current_state
            .finished_tasks()
            .contains(&&RestaurantTask::ValidateOrder)
    );
    assert!(
        current_state
            .finished_tasks()
            .contains(&&RestaurantTask::CheckInventory)
    );

    println!(
        "Simplified workflow state successfully tracks task completion with HashMap structure"
    );
}
